//! The viewport renderer: turns a composited frame into a sequence of
//! terminal actions (cursor moves and glyph prints) and records the drawn
//! bounding rectangle. The actions are plain data; the caller hands them to
//! the terminal.

use vstd::prelude::*;

use crate::area::ImageDrawnArea;
use crate::colour::{colourise, spec_colourise, StyledChar};
use crate::compositor::{lemma_max_width_ge, max_row_width, spec_max_width};

verus! {

/// One instruction for the terminal. `MoveTo` addresses an absolute cell
/// `(column, row)`; the print variants emit at the cursor; `PrintAlert` is a
/// full line rendered in the terminal's alert styling.
#[derive(Clone, Debug)]
pub enum TermAction {
    HideCursor,
    ShowCursor,
    MoveTo(u16, u16),
    Print(String),
    PrintGlyph(StyledChar),
    PrintAlert(String),
    Flush,
}

/// The mathematical value of a terminal action: printed text as a character
/// sequence.
pub ghost enum TermActionView {
    HideCursor,
    ShowCursor,
    MoveTo(u16, u16),
    Print(Seq<char>),
    PrintGlyph(StyledChar),
    PrintAlert(Seq<char>),
    Flush,
}

impl View for TermAction {
    type V = TermActionView;

    open spec fn view(&self) -> TermActionView {
        match self {
            TermAction::HideCursor => TermActionView::HideCursor,
            TermAction::ShowCursor => TermActionView::ShowCursor,
            TermAction::MoveTo(x, y) => TermActionView::MoveTo(*x, *y),
            TermAction::Print(s) => TermActionView::Print(s@),
            TermAction::PrintGlyph(g) => TermActionView::PrintGlyph(*g),
            TermAction::PrintAlert(s) => TermActionView::PrintAlert(s@),
            TermAction::Flush => TermActionView::Flush,
        }
    }
}

impl DeepView for TermAction {
    type V = TermActionView;

    open spec fn deep_view(&self) -> TermActionView {
        self.view()
    }
}

/// Clamped addition of a signed offset to an unsigned coordinate: the result
/// never wraps, it sticks at the nearest bound.
pub open spec fn spec_sat_add_signed(x: int, d: int) -> int {
    if x + d < 0 {
        0
    } else if x + d > u16::MAX {
        u16::MAX as int
    } else {
        x + d
    }
}

/// Clamped subtraction: zero instead of wrapping below zero.
pub open spec fn spec_sat_sub(a: int, b: int) -> int {
    if a >= b {
        a - b
    } else {
        0
    }
}

/// Adds a signed cell offset to a coordinate, clamping at both ends.
pub fn sat_add_signed(x: u16, d: i16) -> (r: u16)
    ensures
        r as int == spec_sat_add_signed(x as int, d as int),
{
    if d >= 0 {
        x.saturating_add(d as u16)
    } else if d == i16::MIN {
        x.saturating_sub(32768)
    } else {
        x.saturating_sub((-d) as u16)
    }
}

/// The glyph-print actions of one row: one colourised glyph per cell.
pub open spec fn spec_row_glyphs(row: Seq<char>, tags: Seq<Seq<char>>) -> Seq<TermActionView> {
    Seq::new(row.len(), |j: int| TermActionView::PrintGlyph(spec_colourise(row[j], tags[j])))
}

/// The actions drawing rows `i..` of a glyph grid whose top-left cell is
/// `(x, y)`: per row, a cursor move to the row start, then its glyphs.
pub open spec fn spec_draw_rows(
    rows: Seq<Seq<char>>,
    colours: Seq<Seq<Seq<char>>>,
    x: u16,
    y: int,
    i: int,
) -> Seq<TermActionView>
    decreases rows.len() - i,
{
    if i < 0 || i >= rows.len() {
        Seq::empty()
    } else {
        seq![TermActionView::MoveTo(x, (y + i) as u16)] + spec_row_glyphs(rows[i], colours[i])
            + spec_draw_rows(rows, colours, x, y, i + 1)
    }
}

/// Draws a composited glyph grid with its colour grid at `(x, y)`, returning
/// the actions and the drawn bounding rectangle.
pub fn draw_image_at(rows: &Vec<String>, colours: &Vec<Vec<String>>, x: u16, y: u16) -> (r: (
    Vec<TermAction>,
    ImageDrawnArea,
))
    requires
        colours.deep_view().len() == rows.deep_view().len(),
        forall|i: int|
            0 <= i < rows.deep_view().len() ==> #[trigger] colours.deep_view()[i].len()
                == rows.deep_view()[i].len(),
        y + rows.deep_view().len() <= u16::MAX,
        spec_max_width(rows.deep_view()) <= u16::MAX,
    ensures
        r.0.deep_view() == spec_draw_rows(rows.deep_view(), colours.deep_view(), x, y as int, 0),
        r.1 == (ImageDrawnArea {
            start_x: x,
            start_y: y,
            width: spec_max_width(rows.deep_view()) as u16,
            height: rows.deep_view().len() as u16,
        }),
{
    let ghost rdv = rows.deep_view();
    let ghost cdv = colours.deep_view();
    let mut out: Vec<TermAction> = Vec::new();
    let mut i: usize = 0;
    proof {
        assert(out.deep_view() =~= Seq::<TermActionView>::empty());
        assert(out.deep_view() + spec_draw_rows(rdv, cdv, x, y as int, 0) =~= spec_draw_rows(
            rdv, cdv, x, y as int, 0,
        ));
    }
    while i < rows.len()
        invariant
            i <= rows.len(),
            rdv == rows.deep_view(),
            cdv == colours.deep_view(),
            rdv.len() == rows.len(),
            cdv.len() == rdv.len(),
            forall|k: int| 0 <= k < rdv.len() ==> #[trigger] cdv[k].len() == rdv[k].len(),
            y + rdv.len() <= u16::MAX,
            spec_draw_rows(rdv, cdv, x, y as int, 0) == out.deep_view() + spec_draw_rows(
                rdv, cdv, x, y as int, i as int,
            ),
        decreases rows.len() - i,
    {
        let ghost out_at_row = out.deep_view();
        let row = &rows[i];
        let tags = &colours[i];
        proof {
            assert(rdv[i as int] == rows@[i as int]@);
            assert(cdv[i as int] == colours@[i as int].deep_view());
        }
        out.push(TermAction::MoveTo(x, y + (i as u16)));
        let n = row.as_str().unicode_len();
        let mut j: usize = 0;
        proof {
            assert(out.deep_view() =~= out_at_row + seq![TermActionView::MoveTo(x, (y + i) as u16)]
                + spec_row_glyphs(rdv[i as int], cdv[i as int]).subrange(0, 0));
        }
        while j < n
            invariant
                j <= n,
                rdv == rows.deep_view(),
                cdv == colours.deep_view(),
                rdv.len() == rows.len(),
                cdv.len() == rdv.len(),
                i < rows.len(),
                rdv[i as int] == rows@[i as int]@,
                cdv[i as int] == colours@[i as int].deep_view(),
                n == rdv[i as int].len(),
                cdv[i as int].len() == n,
                row == &rows@[i as int],
                tags == &colours@[i as int],
                out.deep_view() == out_at_row + seq![TermActionView::MoveTo(x, (y + i) as u16)]
                    + spec_row_glyphs(rdv[i as int], cdv[i as int]).subrange(0, j as int),
            decreases n - j,
        {
            let c = row.as_str().get_char(j);
            let tag = &tags[j];
            proof {
                assert(cdv[i as int][j as int] == colours@[i as int]@[j as int]@);
            }
            let g = colourise(c, tag.as_str());
            let ghost before = out.deep_view();
            out.push(TermAction::PrintGlyph(g));
            proof {
                let rg = spec_row_glyphs(rdv[i as int], cdv[i as int]);
                assert(rg[j as int] == TermActionView::PrintGlyph(g));
                assert(rg.subrange(0, j + 1) =~= rg.subrange(0, j as int).push(rg[j as int]));
                assert(out.deep_view() =~= before.push(TermActionView::PrintGlyph(g)));
                assert(out.deep_view() =~= out_at_row + seq![
                    TermActionView::MoveTo(x, (y + i) as u16),
                ] + rg.subrange(0, j + 1));
            }
            j += 1;
        }
        proof {
            let rg = spec_row_glyphs(rdv[i as int], cdv[i as int]);
            assert(rg.subrange(0, n as int) =~= rg);
            assert(spec_draw_rows(rdv, cdv, x, y as int, i as int) == seq![
                TermActionView::MoveTo(x, (y + i) as u16),
            ] + rg + spec_draw_rows(rdv, cdv, x, y as int, i + 1));
            assert(out_at_row + (seq![TermActionView::MoveTo(x, (y + i) as u16)] + rg
                + spec_draw_rows(rdv, cdv, x, y as int, i + 1)) =~= out.deep_view()
                + spec_draw_rows(rdv, cdv, x, y as int, i + 1));
        }
        i += 1;
    }
    let w = max_row_width(rows);
    proof {
        assert(spec_draw_rows(rdv, cdv, x, y as int, rows.len() as int) =~= Seq::<
            TermActionView,
        >::empty());
        assert(out.deep_view() + Seq::<TermActionView>::empty() =~= out.deep_view());
        lemma_max_width_ge(rdv);
    }
    let area = ImageDrawnArea { start_x: x, start_y: y, width: w as u16, height: rows.len() as u16 };
    (out, area)
}

/// The erase actions for a list of cells: per cell, a cursor move and one
/// blank glyph, so stale pixels are overwritten in place.
pub open spec fn spec_erase_actions(cells: Seq<(u16, u16)>) -> Seq<TermActionView>
    decreases cells.len(),
{
    if cells.len() == 0 {
        Seq::empty()
    } else {
        seq![
            TermActionView::MoveTo(cells[0].0, cells[0].1),
            TermActionView::PrintGlyph(StyledChar::Plain(' ')),
        ] + spec_erase_actions(cells.drop_first())
    }
}

/// Writes a blank character to each listed cell.
pub fn erase_actions(cells: &Vec<(u16, u16)>) -> (r: Vec<TermAction>)
    ensures
        r.deep_view() == spec_erase_actions(cells@),
{
    let mut out: Vec<TermAction> = Vec::new();
    let mut i: usize = 0;
    proof {
        assert(out.deep_view() =~= Seq::<TermActionView>::empty());
        assert(out.deep_view() + spec_erase_actions(cells@) =~= spec_erase_actions(cells@));
        assert(cells@.subrange(0, cells@.len() as int) =~= cells@);
    }
    while i < cells.len()
        invariant
            i <= cells.len(),
            spec_erase_actions(cells@) == out.deep_view() + spec_erase_actions(
                cells@.subrange(i as int, cells@.len() as int),
            ),
        decreases cells.len() - i,
    {
        let ghost before = out.deep_view();
        let ghost rest = cells@.subrange(i as int, cells@.len() as int);
        let (x, y) = cells[i];
        out.push(TermAction::MoveTo(x, y));
        out.push(TermAction::PrintGlyph(StyledChar::Plain(' ')));
        proof {
            assert(rest[0] == cells@[i as int]);
            assert(rest.drop_first() =~= cells@.subrange(i + 1, cells@.len() as int));
            assert(out.deep_view() =~= before + seq![
                TermActionView::MoveTo(x, y),
                TermActionView::PrintGlyph(StyledChar::Plain(' ')),
            ]);
            assert(before + (seq![
                TermActionView::MoveTo(x, y),
                TermActionView::PrintGlyph(StyledChar::Plain(' ')),
            ] + spec_erase_actions(cells@.subrange(i + 1, cells@.len() as int))) =~= out.deep_view()
                + spec_erase_actions(cells@.subrange(i + 1, cells@.len() as int)));
        }
        i += 1;
    }
    proof {
        assert(cells@.subrange(cells@.len() as int, cells@.len() as int) =~= Seq::<
            (u16, u16),
        >::empty());
        assert(out.deep_view() + Seq::<TermActionView>::empty() =~= out.deep_view());
    }
    out
}

} // verus!
