//! The frame compositor: turns a ragged multi-line image and a ragged colour
//! grid into a rectangular, centre-padded glyph grid and colour grid of
//! uniform width and height.
//!
//! Per row, the left pad is `(width - row_length) / 2`, so an odd remainder
//! pads on the right. The padding is character-for-character aligned between
//! the text grid and the colour grid; padding cells and colour cells beyond
//! the supplied colour row take the default colour tag.

use vstd::prelude::*;

use crate::text::{join_lines, push_char, spec_join, spec_lines, split_lines, lemma_lines_no_nl,
    lemma_lines_of_join};

verus! {

/// The length of the longest row.
pub open spec fn spec_max_width(rows: Seq<Seq<char>>) -> int
    decreases rows.len(),
{
    if rows.len() == 0 {
        0
    } else {
        let rest = spec_max_width(rows.drop_last());
        if rows.last().len() > rest {
            rows.last().len() as int
        } else {
            rest
        }
    }
}

pub proof fn lemma_max_width_ge(rows: Seq<Seq<char>>)
    ensures
        spec_max_width(rows) >= 0,
        forall|i: int| 0 <= i < rows.len() ==> #[trigger] rows[i].len() <= spec_max_width(rows),
    decreases rows.len(),
{
    if rows.len() > 0 {
        lemma_max_width_ge(rows.drop_last());
        assert forall|i: int| 0 <= i < rows.len() implies #[trigger] rows[i].len()
            <= spec_max_width(rows) by {
            if i < rows.len() - 1 {
                assert(rows.drop_last()[i] == rows[i]);
            }
        }
    }
}

/// The left pad of a row of length `l` centred in width `w`.
pub open spec fn spec_left_pad(w: int, l: int) -> int {
    (w - l) / 2
}

/// A row of length `l <= w`, centred in width `w` with fill characters.
pub open spec fn spec_pad_text_row(row: Seq<char>, w: int, fill: char) -> Seq<char> {
    let p = spec_left_pad(w, row.len() as int);
    Seq::new(
        w as nat,
        |j: int|
            if j < p {
                fill
            } else if j < p + row.len() {
                row[j - p]
            } else {
                fill
            },
    )
}

/// The colour row parallel to a text row of length `line_len`, centred in
/// width `w`: supplied tags keep their position under the text characters,
/// every other cell takes the default tag.
pub open spec fn spec_pad_colour_row(
    tags: Seq<Seq<char>>,
    line_len: int,
    w: int,
    default: Seq<char>,
) -> Seq<Seq<char>> {
    let p = spec_left_pad(w, line_len);
    Seq::new(
        w as nat,
        |j: int|
            if p <= j < p + line_len && j - p < tags.len() {
                tags[j - p]
            } else {
                default
            },
    )
}

/// The colour row supplied for text row `i`, or an empty one.
pub open spec fn colour_row_or_empty(colours: Seq<Seq<Seq<char>>>, i: int) -> Seq<Seq<char>> {
    if i < colours.len() {
        colours[i]
    } else {
        Seq::empty()
    }
}

/// The whole padded text grid of an image.
pub open spec fn spec_padded_text(rows: Seq<Seq<char>>, fill: char) -> Seq<Seq<char>> {
    Seq::new(rows.len(), |i: int| spec_pad_text_row(rows[i], spec_max_width(rows), fill))
}

/// The whole padded colour grid of an image.
pub open spec fn spec_padded_colours(
    rows: Seq<Seq<char>>,
    colours: Seq<Seq<Seq<char>>>,
    default: Seq<char>,
) -> Seq<Seq<Seq<char>>> {
    Seq::new(
        rows.len(),
        |i: int|
            spec_pad_colour_row(
                colour_row_or_empty(colours, i),
                rows[i].len() as int,
                spec_max_width(rows),
                default,
            ),
    )
}

/// Padding never mutates content: every cell of the non-padded
/// region keeps its source character, and every colour cell under a supplied
/// tag keeps that tag; every row of the output has exactly the grid width.
pub proof fn lemma_padding_never_mutates(
    rows: Seq<Seq<char>>,
    colours: Seq<Seq<Seq<char>>>,
    fill: char,
    default: Seq<char>,
)
    ensures
        forall|i: int| 0 <= i < rows.len() ==> #[trigger] spec_padded_text(rows, fill)[i].len()
            == spec_max_width(rows),
        forall|i: int| 0 <= i < rows.len() ==> #[trigger] spec_padded_colours(
            rows, colours, default,
        )[i].len() == spec_max_width(rows),
        forall|i: int, c: int|
            0 <= i < rows.len() && 0 <= c < rows[i].len() ==> #[trigger] spec_padded_text(
                rows, fill,
            )[i][spec_left_pad(spec_max_width(rows), rows[i].len() as int) + c] == rows[i][c],
        forall|i: int, c: int|
            0 <= i < rows.len() && 0 <= c < rows[i].len() && i < colours.len() && c
                < colours[i].len() ==> #[trigger] spec_padded_colours(
                rows, colours, default,
            )[i][spec_left_pad(spec_max_width(rows), rows[i].len() as int) + c] == colours[i][c],
{
    lemma_max_width_ge(rows);
    let w = spec_max_width(rows);
    assert forall|i: int, c: int|
        0 <= i < rows.len() && 0 <= c < rows[i].len() implies #[trigger] spec_padded_text(
        rows, fill,
    )[i][spec_left_pad(w, rows[i].len() as int) + c] == rows[i][c] by {
        let l = rows[i].len() as int;
        let p = spec_left_pad(w, l);
        assert(0 <= p && p + l <= w) by {
            assert((w - l) / 2 >= 0);
            assert((w - l) / 2 <= w - l);
        }
    }
    assert forall|i: int, c: int|
        0 <= i < rows.len() && 0 <= c < rows[i].len() && i < colours.len() && c
            < colours[i].len() implies #[trigger] spec_padded_colours(
        rows, colours, default,
    )[i][spec_left_pad(w, rows[i].len() as int) + c] == colours[i][c] by {
        let l = rows[i].len() as int;
        let p = spec_left_pad(w, l);
        assert(0 <= p && p + l <= w) by {
            assert((w - l) / 2 >= 0);
            assert((w - l) / 2 <= w - l);
        }
    }
}

/// Centre padding is right-biased: an odd difference puts the extra fill
/// cell on the right of the row, an even difference splits evenly.
pub proof fn lemma_centre_pad_right_bias(w: int, l: int)
    requires
        0 <= l <= w,
    ensures
        spec_left_pad(w, l) >= 0,
        spec_left_pad(w, l) + l <= w,
        (w - l) % 2 == 1 ==> (w - l) - spec_left_pad(w, l) == spec_left_pad(w, l) + 1,
        (w - l) % 2 == 0 ==> (w - l) - spec_left_pad(w, l) == spec_left_pad(w, l),
{
}

/// The length of the longest row.
pub fn max_row_width(rows: &Vec<String>) -> (r: usize)
    ensures
        r == spec_max_width(rows.deep_view()),
{
    let mut m: usize = 0;
    let mut i: usize = 0;
    proof {
        assert(rows.deep_view().subrange(0, 0) =~= Seq::<Seq<char>>::empty());
    }
    while i < rows.len()
        invariant
            i <= rows.len(),
            rows.deep_view().len() == rows.len(),
            m == spec_max_width(rows.deep_view().subrange(0, i as int)),
        decreases rows.len() - i,
    {
        let len = rows[i].as_str().unicode_len();
        if len > m {
            m = len;
        }
        proof {
            let dv = rows.deep_view();
            let pre = dv.subrange(0, i + 1);
            assert(pre.drop_last() =~= dv.subrange(0, i as int));
            assert(pre.last() == dv[i as int]);
        }
        i += 1;
    }
    proof {
        assert(rows.deep_view().subrange(0, rows.len() as int) =~= rows.deep_view());
    }
    m
}

/// One text row, centre-padded to width `w` with `fill`.
fn pad_text_row(line: &str, w: usize, fill: char) -> (r: String)
    requires
        line@.len() <= w,
    ensures
        r@ == spec_pad_text_row(line@, w as int, fill),
{
    let l = line.unicode_len();
    let p = (w - l) / 2;
    let mut s = String::new();
    let mut j: usize = 0;
    while j < w
        invariant
            j <= w,
            l == line@.len() <= w,
            p == spec_left_pad(w as int, l as int),
            p + l <= w,
            s@.len() == j,
            forall|k: int| 0 <= k < j ==> s@[k] == spec_pad_text_row(line@, w as int, fill)[k],
        decreases w - j,
    {
        let c = if j < p {
            fill
        } else if j < p + l {
            line.get_char(j - p)
        } else {
            fill
        };
        push_char(&mut s, c);
        j += 1;
    }
    proof {
        assert(s@ =~= spec_pad_text_row(line@, w as int, fill));
    }
    s
}

/// One colour row, aligned with a text row of length `line_len` and padded
/// to width `w` with the default tag.
fn pad_colour_row(tags: &Vec<String>, line_len: usize, w: usize, default: &String) -> (r: Vec<
    String,
>)
    requires
        line_len <= w,
    ensures
        r.deep_view() == spec_pad_colour_row(tags.deep_view(), line_len as int, w as int, default@),
{
    let p = (w - line_len) / 2;
    let mut out: Vec<String> = Vec::new();
    let mut j: usize = 0;
    while j < w
        invariant
            j <= w,
            line_len <= w,
            p == spec_left_pad(w as int, line_len as int),
            p + line_len <= w,
            out.deep_view().len() == j,
            tags.deep_view().len() == tags.len(),
            forall|k: int|
                0 <= k < j ==> out.deep_view()[k] == spec_pad_colour_row(
                    tags.deep_view(), line_len as int, w as int, default@,
                )[k],
        decreases w - j,
    {
        let tag = if p <= j && j < p + line_len && j - p < tags.len() {
            tags[j - p].clone()
        } else {
            default.clone()
        };
        let ghost old_dv = out.deep_view();
        out.push(tag);
        proof {
            assert(out.deep_view() =~= old_dv.push(out@[j as int]@));
        }
        j += 1;
    }
    proof {
        assert(out.deep_view() =~= spec_pad_colour_row(
            tags.deep_view(), line_len as int, w as int, default@,
        ));
    }
    out
}

/// Centre-pads a grid of text rows and its colour grid to uniform width.
pub fn pad_rows(lines: &Vec<String>, colours: &Vec<Vec<String>>, fill: char, default: &String) -> (r:
    (Vec<String>, Vec<Vec<String>>))
    ensures
        r.0.deep_view() == spec_padded_text(lines.deep_view(), fill),
        r.1.deep_view() == spec_padded_colours(lines.deep_view(), colours.deep_view(), default@),
{
    let w = max_row_width(lines);
    proof {
        lemma_max_width_ge(lines.deep_view());
    }
    let mut out_text: Vec<String> = Vec::new();
    let mut out_colours: Vec<Vec<String>> = Vec::new();
    let mut i: usize = 0;
    while i < lines.len()
        invariant
            i <= lines.len(),
            lines.deep_view().len() == lines.len(),
            colours.deep_view().len() == colours.len(),
            w == spec_max_width(lines.deep_view()),
            forall|k: int| 0 <= k < lines.deep_view().len() ==> #[trigger] lines.deep_view()[k].len()
                <= w,
            out_text.deep_view().len() == i,
            out_colours.deep_view().len() == i,
            forall|k: int|
                0 <= k < i ==> out_text.deep_view()[k] == spec_padded_text(
                    lines.deep_view(), fill,
                )[k],
            forall|k: int|
                0 <= k < i ==> out_colours.deep_view()[k] == spec_padded_colours(
                    lines.deep_view(), colours.deep_view(), default@,
                )[k],
        decreases lines.len() - i,
    {
        let line = &lines[i];
        proof {
            assert(lines.deep_view()[i as int] == lines@[i as int]@);
        }
        let line_len = line.as_str().unicode_len();
        let padded = pad_text_row(line.as_str(), w, fill);
        let empty_tags: Vec<String> = Vec::new();
        let crow = if i < colours.len() {
            pad_colour_row(&colours[i], line_len, w, default)
        } else {
            proof {
                assert(empty_tags.deep_view() =~= Seq::<Seq<char>>::empty());
            }
            pad_colour_row(&empty_tags, line_len, w, default)
        };
        let ghost old_text_dv = out_text.deep_view();
        let ghost old_colours_dv = out_colours.deep_view();
        out_text.push(padded);
        out_colours.push(crow);
        proof {
            assert(out_text.deep_view() =~= old_text_dv.push(out_text@[i as int]@));
            assert(out_colours.deep_view() =~= old_colours_dv.push(
                out_colours@[i as int].deep_view(),
            ));
        }
        i += 1;
    }
    proof {
        assert(out_text.deep_view() =~= spec_padded_text(lines.deep_view(), fill));
        assert(out_colours.deep_view() =~= spec_padded_colours(
            lines.deep_view(), colours.deep_view(), default@,
        ));
    }
    (out_text, out_colours)
}

/// Centre-pads a newline-separated image and its colour grid to a uniform
/// rectangle; returns the padded image, the padded colour grid, the grid
/// width and the grid height.
pub fn pad_image_and_colours(
    image: String,
    colours: Vec<Vec<String>>,
    padding_char: Option<char>,
    default_colour: Option<String>,
) -> (r: (String, Vec<Vec<String>>, usize, usize))
    requires
        padding_char is Some ==> padding_char->0 != '\n',
    ensures
        r.2 == spec_max_width(spec_lines(image@)),
        r.3 == spec_lines(image@).len(),
        r.0@ == spec_join(
            spec_padded_text(spec_lines(image@), if padding_char is Some { padding_char->0 } else { ' ' }),
        ),
        r.1.deep_view() == spec_padded_colours(
            spec_lines(image@),
            colours.deep_view(),
            if default_colour is Some { default_colour->0@ } else { Seq::empty() },
        ),
        r.2 > 0 ==> spec_lines(r.0@) == spec_padded_text(
            spec_lines(image@), if padding_char is Some { padding_char->0 } else { ' ' },
        ),
{
    let fill = match padding_char {
        Some(c) => c,
        None => ' ',
    };
    let default = match default_colour {
        Some(s) => s,
        None => String::new(),
    };
    let lines = split_lines(image.as_str());
    let w = max_row_width(&lines);
    let h = lines.len();
    let (padded_text, padded_colours) = pad_rows(&lines, &colours, fill, &default);
    let joined = join_lines(&padded_text);
    proof {
        let rows = lines.deep_view();
        let ptext = spec_padded_text(rows, fill);
        lemma_max_width_ge(rows);
        lemma_lines_no_nl(image@);
        if spec_max_width(rows) > 0 {
            assert forall|i: int, j: int|
                0 <= i < ptext.len() && 0 <= j < ptext[i].len() implies ptext[i][j] != '\n' by {
                let l = rows[i].len() as int;
                let p = spec_left_pad(spec_max_width(rows), l);
                assert(0 <= p && p + l <= spec_max_width(rows));
            }
            if ptext.len() > 0 {
                assert(ptext.last().len() == spec_max_width(rows));
            }
            lemma_lines_of_join(ptext);
        }
    }
    (joined, padded_colours, w, h)
}

} // verus!
