use bitpet::{colourise, hex_to_rgb, Rgb, StyledChar};

#[test]
fn parses_valid_hex_tags() {
    assert_eq!(hex_to_rgb("#ff0000"), Some(Rgb { r: 255, g: 0, b: 0 }));
    assert_eq!(hex_to_rgb("#00ff7f"), Some(Rgb { r: 0, g: 255, b: 127 }));
    assert_eq!(hex_to_rgb("#AbCdEf"), Some(Rgb { r: 0xab, g: 0xcd, b: 0xef }));
    assert_eq!(hex_to_rgb("#000000"), Some(Rgb { r: 0, g: 0, b: 0 }));
}

#[test]
fn rejects_malformed_tags() {
    assert_eq!(hex_to_rgb(""), None);
    assert_eq!(hex_to_rgb("#12345"), None);
    assert_eq!(hex_to_rgb("#1234567"), None);
    assert_eq!(hex_to_rgb("1234567"), None);
    assert_eq!(hex_to_rgb("#12345g"), None);
    assert_eq!(hex_to_rgb("red"), None);
    assert_eq!(hex_to_rgb("# ff000"), None);
}

#[test]
fn valid_tag_styles_the_character() {
    let styled = colourise('x', "#00ff00");
    assert_ne!(styled, StyledChar::Plain('x'));
    assert_eq!(styled, StyledChar::Coloured('x', Rgb { r: 0, g: 255, b: 0 }));
}

#[test]
fn empty_and_malformed_tags_leave_the_character_bare() {
    assert_eq!(colourise('x', ""), StyledChar::Plain('x'));
    assert_eq!(colourise('x', "#zzzzzz"), StyledChar::Plain('x'));
    assert_eq!(colourise('x', "#fff"), StyledChar::Plain('x'));
    assert_eq!(colourise('x', "blue"), StyledChar::Plain('x'));
}
