use bitpet::{Animation, AnimationWindow};

fn window(start: u64, end: u64, dy: i16) -> AnimationWindow {
    AnimationWindow {
        start_frame_inclusive: start,
        end_frame_inclusive: end,
        image: "XXX\nXXX\nXXX".to_string(),
        colours: vec![],
        delta_x_from_center: 0,
        delta_y_from_center: dy,
    }
}

#[test]
fn total_frames_is_one_past_the_last_window() {
    let anim = Animation { windows: vec![window(0, 9, 0), window(10, 19, -2)], fps: 10 };
    assert_eq!(anim.total_frames(), 20);
}

#[test]
fn every_frame_maps_to_exactly_one_window() {
    let anim =
        Animation { windows: vec![window(0, 3, 0), window(4, 4, -1), window(5, 11, 0)], fps: 30 };
    for f in 0..12u64 {
        let i = anim.find_window(f);
        let w = &anim.windows[i];
        assert!(w.start_frame_inclusive <= f && f <= w.end_frame_inclusive);
        // No other window covers f.
        for (j, other) in anim.windows.iter().enumerate() {
            if j != i {
                assert!(f < other.start_frame_inclusive || f > other.end_frame_inclusive);
            }
        }
    }
}

#[test]
fn single_window_covers_everything() {
    let anim = Animation { windows: vec![window(0, 99, 0)], fps: 60 };
    assert_eq!(anim.total_frames(), 100);
    assert_eq!(anim.find_window(0), 0);
    assert_eq!(anim.find_window(99), 0);
}

#[test]
fn well_formedness_is_decided_exactly() {
    let good = Animation { windows: vec![window(0, 9, 0), window(10, 19, -2)], fps: 10 };
    assert!(good.is_well_formed());

    let empty = Animation { windows: vec![], fps: 10 };
    assert!(!empty.is_well_formed());

    let no_rate = Animation { windows: vec![window(0, 9, 0)], fps: 0 };
    assert!(!no_rate.is_well_formed());

    let late_start = Animation { windows: vec![window(1, 9, 0)], fps: 10 };
    assert!(!late_start.is_well_formed());

    let gap = Animation { windows: vec![window(0, 9, 0), window(11, 19, 0)], fps: 10 };
    assert!(!gap.is_well_formed());

    let overlap = Animation { windows: vec![window(0, 9, 0), window(9, 19, 0)], fps: 10 };
    assert!(!overlap.is_well_formed());

    let backwards = Animation { windows: vec![window(5, 3, 0)], fps: 10 };
    assert!(!backwards.is_well_formed());
}

#[test]
fn drawability_bounds_the_image_and_offsets() {
    let good = Animation { windows: vec![window(0, 9, 0)], fps: 10 };
    assert!(bitpet::is_drawable(&good));

    let mut far = window(0, 9, 0);
    far.delta_y_from_center = -3000;
    let too_far = Animation { windows: vec![far], fps: 10 };
    assert!(!bitpet::is_drawable(&too_far));

    let mut wide = window(0, 9, 0);
    wide.image = "x".repeat(3000);
    let too_wide = Animation { windows: vec![wide], fps: 10 };
    assert!(!bitpet::is_drawable(&too_wide));
}
