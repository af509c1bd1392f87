use bitpet::{cells_to_erase, ImageDrawnArea};

fn area(x: u16, y: u16, w: u16, h: u16) -> ImageDrawnArea {
    ImageDrawnArea { start_x: x, start_y: y, width: w, height: h }
}

fn cell_set(prev: &ImageDrawnArea, curr: &ImageDrawnArea) -> Vec<(u16, u16)> {
    let mut expected = Vec::new();
    for y in prev.start_y..prev.start_y + prev.height {
        for x in prev.start_x..prev.start_x + prev.width {
            let inside = x >= curr.start_x
                && x < curr.start_x + curr.width
                && y >= curr.start_y
                && y < curr.start_y + curr.height;
            if !inside {
                expected.push((x, y));
            }
        }
    }
    expected
}

#[test]
fn identical_rectangles_erase_nothing() {
    let a = area(10, 5, 4, 3);
    assert_eq!(cells_to_erase(&a, &a), Vec::<(u16, u16)>::new());
}

#[test]
fn disjoint_rectangles_erase_all_of_the_previous() {
    let prev = area(0, 0, 3, 2);
    let curr = area(10, 10, 3, 2);
    let erased = cells_to_erase(&prev, &curr);
    assert_eq!(erased, cell_set(&prev, &curr));
    assert_eq!(erased.len(), 6);
}

#[test]
fn overlapping_rectangles_erase_the_exact_difference() {
    let prev = area(2, 2, 4, 4);
    let curr = area(4, 3, 4, 4);
    let erased = cells_to_erase(&prev, &curr);
    assert_eq!(erased, cell_set(&prev, &curr));
    // prev spans x 2..6, y 2..6; curr spans x 4..8, y 3..7; the overlap is
    // x 4..6, y 3..6, so 16 - 6 = 10 cells go.
    assert_eq!(erased.len(), 10);
    for &(x, y) in &erased {
        assert!(x >= 2 && x < 6 && y >= 2 && y < 6);
        assert!(!(x >= 4 && x < 8 && y >= 3 && y < 7));
    }
}

#[test]
fn vertical_shift_erases_the_vacated_rows() {
    let prev = area(21, 9, 3, 3);
    let curr = area(21, 7, 3, 3);
    let erased = cells_to_erase(&prev, &curr);
    let expected = vec![(21, 10), (22, 10), (23, 10), (21, 11), (22, 11), (23, 11)];
    assert_eq!(erased, expected);
}
