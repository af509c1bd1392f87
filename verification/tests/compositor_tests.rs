use bitpet::pad_image_and_colours;

fn tags(row: &[&str]) -> Vec<String> {
    row.iter().map(|t| t.to_string()).collect()
}

#[test]
fn pads_ragged_rows_to_uniform_width() {
    let image = "ab\nxyzw\nq".to_string();
    let colours = vec![tags(&["#ff0000"]), tags(&[])];
    let (padded, padded_colours, width, height) =
        pad_image_and_colours(image, colours, None, None);
    assert_eq!(width, 4);
    assert_eq!(height, 3);
    let rows: Vec<&str> = padded.lines().collect();
    assert_eq!(rows, vec![" ab ", "xyzw", " q  "]);
    assert_eq!(padded_colours.len(), 3);
    for row in &padded_colours {
        assert_eq!(row.len(), 4);
    }
    // The supplied tag stays aligned under its character: row 0 pads one
    // cell on the left, so the tag of 'a' lands at column 1.
    assert_eq!(padded_colours[0], vec!["", "#ff0000", "", ""]);
    assert_eq!(padded_colours[1], vec!["", "", "", ""]);
    assert_eq!(padded_colours[2], vec!["", "", "", ""]);
}

#[test]
fn padding_never_mutates_content() {
    let image = "abc\nlonger line".to_string();
    let colours = vec![tags(&["#010203", "#040506"])];
    let (padded, padded_colours, width, height) =
        pad_image_and_colours(image, colours, None, None);
    assert_eq!(width, 11);
    assert_eq!(height, 2);
    let rows: Vec<&str> = padded.lines().collect();
    let left = (11 - 3) / 2;
    assert_eq!(&rows[0][left..left + 3], "abc");
    assert_eq!(rows[1], "longer line");
    assert_eq!(padded_colours[0][left], "#010203");
    assert_eq!(padded_colours[0][left + 1], "#040506");
}

#[test]
fn odd_difference_pads_on_the_right() {
    let image = "abc".to_string();
    let (padded, _, width, _) =
        pad_image_and_colours(image, vec![], None, Some("#ffffff".to_string()));
    assert_eq!(width, 3);
    assert_eq!(padded, "abc");

    let image = "abc\nsixsix".to_string();
    let (padded, colours, width, _) = pad_image_and_colours(image, vec![], None, None);
    assert_eq!(width, 6);
    let rows: Vec<&str> = padded.lines().collect();
    // Row length 3 in width 6: left pad 1, right pad 2.
    assert_eq!(rows[0], " abc  ");
    assert_eq!(colours[0].len(), 6);
}

#[test]
fn custom_fill_and_default_colour() {
    let image = "a\nbcd".to_string();
    let colours = vec![tags(&["#111111"])];
    let (padded, padded_colours, width, height) =
        pad_image_and_colours(image, colours, Some('.'), Some("#222222".to_string()));
    assert_eq!((width, height), (3, 2));
    let rows: Vec<&str> = padded.lines().collect();
    assert_eq!(rows, vec![".a.", "bcd"]);
    assert_eq!(padded_colours[0], vec!["#222222", "#111111", "#222222"]);
    assert_eq!(padded_colours[1], vec!["#222222", "#222222", "#222222"]);
}

#[test]
fn colour_rows_shorter_and_missing_get_defaults() {
    let image = "abcd\nefgh".to_string();
    let colours = vec![tags(&["#0a0b0c"])];
    let (_, padded_colours, _, _) = pad_image_and_colours(image, colours, None, None);
    assert_eq!(padded_colours[0], vec!["#0a0b0c", "", "", ""]);
    assert_eq!(padded_colours[1], vec!["", "", "", ""]);
}

#[test]
fn empty_image_gives_empty_grid() {
    let (padded, colours, width, height) =
        pad_image_and_colours(String::new(), vec![], None, None);
    assert_eq!(padded, "");
    assert_eq!(colours.len(), 0);
    assert_eq!((width, height), (0, 0));
}
