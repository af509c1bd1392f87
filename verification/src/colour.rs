//! Colour tags and the glyph colorizer.
//!
//! A colour tag is either the empty string ("no styling") or a 7-character
//! `#RRGGBB` hex string. Malformed tags never abort rendering: they are
//! treated as "no styling".

use vstd::prelude::*;

verus! {

/// A 24-bit RGB colour.
#[derive(Clone, Copy, Debug, PartialEq, Eq, Structural)]
pub struct Rgb {
    pub r: u8,
    pub g: u8,
    pub b: u8,
}

/// True for the sixteen ASCII hex digit characters (both cases).
pub open spec fn is_hex_digit(c: char) -> bool {
    ('0' <= c && c <= '9') || ('a' <= c && c <= 'f') || ('A' <= c && c <= 'F')
}

/// The numeric value of a hex digit character.
pub open spec fn hex_digit_val(c: char) -> int {
    if '0' <= c && c <= '9' {
        c as int - '0' as int
    } else if 'a' <= c && c <= 'f' {
        c as int - 'a' as int + 10
    } else {
        c as int - 'A' as int + 10
    }
}

/// A colour tag is well formed when it is exactly `#RRGGBB` with hex digits.
pub open spec fn is_valid_colour_tag(s: Seq<char>) -> bool {
    &&& s.len() == 7
    &&& s[0] == '#'
    &&& forall|i: int| 1 <= i < 7 ==> is_hex_digit(#[trigger] s[i])
}

/// The colour denoted by a well-formed `#RRGGBB` tag.
pub open spec fn spec_tag_colour(s: Seq<char>) -> Rgb
    recommends
        is_valid_colour_tag(s),
{
    Rgb {
        r: (16 * hex_digit_val(s[1]) + hex_digit_val(s[2])) as u8,
        g: (16 * hex_digit_val(s[3]) + hex_digit_val(s[4])) as u8,
        b: (16 * hex_digit_val(s[5]) + hex_digit_val(s[6])) as u8,
    }
}

/// What `hex_to_rgb` returns: `Some` exactly on well-formed tags.
pub open spec fn spec_hex_to_rgb(s: Seq<char>) -> Option<Rgb> {
    if is_valid_colour_tag(s) {
        Some(spec_tag_colour(s))
    } else {
        None
    }
}

/// Parses one hex digit character.
fn hex_digit(c: char) -> (r: Option<u8>)
    ensures
        r is Some <==> is_hex_digit(c),
        r is Some ==> r->0 == hex_digit_val(c) && r->0 < 16,
{
    if '0' <= c && c <= '9' {
        Some((c as u8) - ('0' as u8))
    } else if 'a' <= c && c <= 'f' {
        Some((c as u8) - ('a' as u8) + 10)
    } else if 'A' <= c && c <= 'F' {
        Some((c as u8) - ('A' as u8) + 10)
    } else {
        None
    }
}

/// Parses a `#RRGGBB` colour tag; `None` on any malformed tag.
pub fn hex_to_rgb(hex: &str) -> (r: Option<Rgb>)
    ensures
        r == spec_hex_to_rgb(hex@),
{
    let len = hex.unicode_len();
    if len != 7 {
        return None;
    }
    if hex.get_char(0) != '#' {
        return None;
    }
    let d1 = hex_digit(hex.get_char(1));
    let d2 = hex_digit(hex.get_char(2));
    let d3 = hex_digit(hex.get_char(3));
    let d4 = hex_digit(hex.get_char(4));
    let d5 = hex_digit(hex.get_char(5));
    let d6 = hex_digit(hex.get_char(6));
    match (d1, d2, d3, d4, d5, d6) {
        (Some(a), Some(b), Some(c), Some(d), Some(e), Some(f)) => Some(Rgb {
            r: 16 * a + b,
            g: 16 * c + d,
            b: 16 * e + f,
        }),
        _ => None,
    }
}

/// One renderable character cell: either a bare character or a character
/// carrying a 24-bit foreground colour.
#[derive(Clone, Copy, Debug, PartialEq, Eq, Structural)]
pub enum StyledChar {
    Plain(char),
    Coloured(char, Rgb),
}

/// What the glyph colorizer produces for a character under a colour tag.
pub open spec fn spec_colourise(c: char, tag: Seq<char>) -> StyledChar {
    match spec_hex_to_rgb(tag) {
        Some(rgb) => StyledChar::Coloured(c, rgb),
        None => StyledChar::Plain(c),
    }
}

/// The glyph colorizer: styles `c` with the colour named by `tag`, or leaves
/// it bare when the tag is empty or malformed. Never fails.
pub fn colourise(c: char, tag: &str) -> (r: StyledChar)
    ensures
        r == spec_colourise(c, tag@),
{
    match hex_to_rgb(tag) {
        Some(rgb) => StyledChar::Coloured(c, rgb),
        None => StyledChar::Plain(c),
    }
}

/// A well-formed `#RRGGBB` tag always styles the character, and the output
/// differs from the unstyled one; the empty tag and every malformed tag
/// leave the character unstyled.
pub proof fn lemma_colour_tag_round_trip(c: char, tag: Seq<char>)
    ensures
        is_valid_colour_tag(tag) ==> spec_colourise(c, tag) != StyledChar::Plain(c)
            && spec_colourise(c, tag) == StyledChar::Coloured(c, spec_tag_colour(tag)),
        !is_valid_colour_tag(tag) ==> spec_colourise(c, tag) == StyledChar::Plain(c),
{
}

} // verus!
