//! The playback state machine: one tick per frame, from `Initializing`
//! through `Rendering` / `ShowingSizeError` to `Finished`.
//!
//! The player is pure: each tick takes the latest known terminal size and
//! returns the terminal actions for that frame — restore the cursor to the
//! saved origin, then either a one-off undersize alert, or the border box,
//! the current window's composited frame, and the erasure of exactly the
//! cells the previous frame covered and this one does not. The caller
//! performs the actions, polls resize events and sleeps between frames.

use vstd::prelude::*;

use crate::animation::{
    lemma_frame_maps_to_exactly_one_window, spec_window_index, window_contains, Animation,
    AnimationWindow,
};
use crate::area::{cells_to_erase, spec_erase_cells, ImageDrawnArea};
use crate::compositor::{
    colour_row_or_empty, lemma_max_width_ge, max_row_width, pad_rows, spec_left_pad,
    spec_max_width, spec_pad_colour_row, spec_pad_text_row, spec_padded_colours, spec_padded_text,
};
use crate::renderer::{
    draw_image_at, erase_actions, sat_add_signed, spec_draw_rows, spec_erase_actions,
    spec_sat_add_signed, spec_sat_sub, TermAction, TermActionView,
};
use crate::text::{char_repeat, push_char, spec_lines, split_lines};

verus! {

/// The fixed viewport width, border included.
pub const BOX_WIDTH: u16 = 45;

/// The fixed viewport height, border included.
pub const BOX_HEIGHT: u16 = 10;

/// The single-line message shown once per run of undersized frames.
pub open spec fn spec_size_error_msg() -> Seq<char> {
    "Error: Terminal too small to display your pet :("@
}

/// The top border row: a corner, a run of horizontal bars, a corner.
pub open spec fn spec_border_top() -> Seq<char> {
    seq!['\u{250c}'] + Seq::new((BOX_WIDTH - 2) as nat, |j: int| '\u{2500}') + seq!['\u{2510}']
}

/// The bottom border row.
pub open spec fn spec_border_bottom() -> Seq<char> {
    seq!['\u{2514}'] + Seq::new((BOX_WIDTH - 2) as nat, |j: int| '\u{2500}') + seq!['\u{2518}']
}

/// The vertical border bar.
pub open spec fn spec_vbar() -> Seq<char> {
    seq!['\u{2502}']
}

/// The actions of border row `r` with the box top at `origin`: the full top
/// or bottom row, or the two side bars of a middle row.
pub open spec fn spec_border_row_actions(origin: u16, r: int) -> Seq<TermActionView> {
    let y = (origin + r) as u16;
    if r == 0 {
        seq![TermActionView::MoveTo(0, y), TermActionView::Print(spec_border_top())]
    } else if r == BOX_HEIGHT - 1 {
        seq![TermActionView::MoveTo(0, y), TermActionView::Print(spec_border_bottom())]
    } else {
        seq![
            TermActionView::MoveTo(0, y),
            TermActionView::Print(spec_vbar()),
            TermActionView::MoveTo((BOX_WIDTH - 1) as u16, y),
            TermActionView::Print(spec_vbar()),
        ]
    }
}

/// The actions drawing border rows `r..` of the box.
pub open spec fn spec_border_actions(origin: u16, r: int) -> Seq<TermActionView>
    decreases BOX_HEIGHT - r,
{
    if r < 0 || r >= BOX_HEIGHT {
        Seq::empty()
    } else {
        spec_border_row_actions(origin, r) + spec_border_actions(origin, r + 1)
    }
}

/// Builds the top or bottom border row string.
fn border_horizontal_row(left: char, right: char) -> (r: String)
    ensures
        r@ == seq![left] + Seq::new((BOX_WIDTH - 2) as nat, |j: int| '\u{2500}') + seq![right],
{
    let mut s = String::new();
    push_char(&mut s, left);
    let bars = char_repeat('\u{2500}', (BOX_WIDTH - 2) as usize);
    s.append(bars.as_str());
    push_char(&mut s, right);
    proof {
        assert(s@ =~= seq![left] + Seq::new((BOX_WIDTH - 2) as nat, |j: int| '\u{2500}') + seq![
            right,
        ]);
    }
    s
}

/// The actions drawing the fixed-size border box with its top row at
/// `origin`.
fn border_actions(origin: u16) -> (r: Vec<TermAction>)
    requires
        origin + BOX_HEIGHT <= u16::MAX,
    ensures
        r.deep_view() == spec_border_actions(origin, 0),
{
    let mut out: Vec<TermAction> = Vec::new();
    let mut i: u16 = 0;
    proof {
        assert(out.deep_view() =~= Seq::<TermActionView>::empty());
        assert(out.deep_view() + spec_border_actions(origin, 0) =~= spec_border_actions(origin, 0));
    }
    while i < BOX_HEIGHT
        invariant
            0 <= i <= BOX_HEIGHT,
            origin + BOX_HEIGHT <= u16::MAX,
            spec_border_actions(origin, 0) == out.deep_view() + spec_border_actions(
                origin, i as int,
            ),
        decreases BOX_HEIGHT - i,
    {
        let ghost before = out.deep_view();
        let y = origin + i;
        if i == 0 {
            let row = border_horizontal_row('\u{250c}', '\u{2510}');
            out.push(TermAction::MoveTo(0, y));
            out.push(TermAction::Print(row));
        } else if i == BOX_HEIGHT - 1 {
            let row = border_horizontal_row('\u{2514}', '\u{2518}');
            out.push(TermAction::MoveTo(0, y));
            out.push(TermAction::Print(row));
        } else {
            let mut bar = String::new();
            push_char(&mut bar, '\u{2502}');
            let bar2 = bar.clone();
            proof {
                assert(bar@ =~= spec_vbar());
            }
            out.push(TermAction::MoveTo(0, y));
            out.push(TermAction::Print(bar));
            out.push(TermAction::MoveTo(BOX_WIDTH - 1, y));
            out.push(TermAction::Print(bar2));
        }
        proof {
            assert(out.deep_view() =~= before + spec_border_row_actions(origin, i as int));
            assert(spec_border_actions(origin, i as int) == spec_border_row_actions(origin, i as int)
                + spec_border_actions(origin, i as int + 1));
            assert(before + (spec_border_row_actions(origin, i as int) + spec_border_actions(
                origin, i as int + 1,
            )) =~= out.deep_view() + spec_border_actions(origin, i as int + 1));
        }
        i += 1;
    }
    proof {
        assert(spec_border_actions(origin, BOX_HEIGHT as int) =~= Seq::<TermActionView>::empty());
        assert(out.deep_view() + Seq::<TermActionView>::empty() =~= out.deep_view());
    }
    out
}

/// Can every window of `a` be placed in terminal cell coordinates without
/// leaving the `u16` space? Generous fixed bounds on image size and offsets.
pub open spec fn drawable(a: Animation) -> bool {
    forall|i: int|
        0 <= i < a.windows@.len() ==> {
            let w = #[trigger] a.windows@[i];
            &&& spec_lines(w.image@).len() <= 2048
            &&& spec_max_width(spec_lines(w.image@)) <= 2048
            &&& -2048 <= w.delta_x_from_center <= 2048
            &&& -2048 <= w.delta_y_from_center <= 2048
        }
}

/// Decides `drawable`, so that a caller handed an animation from outside
/// can refuse an oversized one instead of trusting the producer.
pub fn is_drawable(anim: &Animation) -> (r: bool)
    ensures
        r == drawable(*anim),
{
    let n = anim.windows.len();
    let mut i: usize = 0;
    while i < n
        invariant
            i <= n,
            n == anim.windows@.len(),
            forall|j: int|
                0 <= j < i ==> {
                    let w = #[trigger] anim.windows@[j];
                    &&& spec_lines(w.image@).len() <= 2048
                    &&& spec_max_width(spec_lines(w.image@)) <= 2048
                    &&& -2048 <= w.delta_x_from_center <= 2048
                    &&& -2048 <= w.delta_y_from_center <= 2048
                },
        decreases n - i,
    {
        let w = &anim.windows[i];
        let lines = split_lines(w.image.as_str());
        if lines.len() > 2048 {
            return false;
        }
        if max_row_width(&lines) > 2048 {
            return false;
        }
        if w.delta_x_from_center < -2048 || w.delta_x_from_center > 2048 {
            return false;
        }
        if w.delta_y_from_center < -2048 || w.delta_y_from_center > 2048 {
            return false;
        }
        i += 1;
    }
    true
}

/// The padded text grid of a window's image, space-filled.
pub open spec fn spec_window_padded_text(w: AnimationWindow) -> Seq<Seq<char>> {
    spec_padded_text(spec_lines(w.image@), ' ')
}

/// The padded colour grid of a window, defaulting to the empty tag.
pub open spec fn spec_window_padded_colours(w: AnimationWindow) -> Seq<Seq<Seq<char>>> {
    spec_padded_colours(spec_lines(w.image@), w.colours.deep_view(), Seq::empty())
}

/// The column of a window's top-left frame cell: the frame centred in the
/// box width, shifted by the window's horizontal offset, clamped.
pub open spec fn spec_frame_x(w: AnimationWindow) -> int {
    spec_sat_add_signed(
        spec_sat_sub(
            (BOX_WIDTH / 2) as int,
            spec_max_width(spec_lines(w.image@)) as u16 as int / 2,
        ),
        w.delta_x_from_center as int,
    )
}

/// The row of a window's top-left frame cell: the frame centred in the box
/// height below `origin`, shifted by the window's vertical offset, clamped.
pub open spec fn spec_frame_y(w: AnimationWindow, origin: u16) -> int {
    spec_sat_add_signed(
        spec_sat_sub(
            origin + (BOX_HEIGHT / 2) as int,
            spec_lines(w.image@).len() as u16 as int / 2,
        ),
        w.delta_y_from_center as int,
    )
}

/// The rectangle the window's frame occupies when drawn below `origin`.
pub open spec fn spec_frame_area(w: AnimationWindow, origin: u16) -> ImageDrawnArea {
    ImageDrawnArea {
        start_x: spec_frame_x(w) as u16,
        start_y: spec_frame_y(w, origin) as u16,
        width: spec_max_width(spec_window_padded_text(w)) as u16,
        height: spec_lines(w.image@).len() as u16,
    }
}

/// The actions drawing the frame of window `w` below `origin`.
pub open spec fn spec_frame_draw_actions(w: AnimationWindow, origin: u16) -> Seq<TermActionView> {
    spec_draw_rows(
        spec_window_padded_text(w),
        spec_window_padded_colours(w),
        spec_frame_x(w) as u16,
        spec_frame_y(w, origin),
        0,
    )
}

/// If every row of `rows` has length `l`, the grid width is `l`.
proof fn lemma_uniform_max_width(rows: Seq<Seq<char>>, l: int)
    requires
        forall|i: int| 0 <= i < rows.len() ==> #[trigger] rows[i].len() == l,
        rows.len() > 0,
    ensures
        spec_max_width(rows) == l,
    decreases rows.len(),
{
    assert(rows[rows.len() - 1].len() == l);
    assert(rows.last() == rows[rows.len() - 1]);
    if rows.len() == 1 {
        assert(spec_max_width(rows.drop_last()) == 0);
    } else {
        assert forall|i: int| 0 <= i < rows.drop_last().len() implies #[trigger] rows.drop_last()[
            i
        ].len() == l by {
            assert(rows.drop_last()[i] == rows[i]);
        }
        lemma_uniform_max_width(rows.drop_last(), l);
        assert(rows.last().len() == l);
    }
}

/// The playback state: the saved cursor origin, the latest known terminal
/// size, the next frame to render, whether the undersize alert is currently
/// shown, and the rectangle drawn by the previous frame.
pub struct AnimationPlayer {
    pub origin_row: u16,
    pub term_width: u16,
    pub term_height: u16,
    pub frame: u64,
    pub showing_error: bool,
    pub prev_area: Option<ImageDrawnArea>,
}

impl AnimationPlayer {
    /// The player keeps its coordinates far enough from the top of the
    /// `u16` range that box and frame placement cannot overflow.
    pub open spec fn inv(self) -> bool {
        &&& self.origin_row <= 60000
        &&& match self.prev_area {
            Some(a) => a.fits(),
            None => true,
        }
    }

    /// A fresh player: cursor saved at `origin_row`, no frame drawn yet, no
    /// alert shown.
    pub fn new(origin_row: u16, term_width: u16, term_height: u16) -> (r: Self)
        requires
            origin_row <= 60000,
        ensures
            r.inv(),
            r == (AnimationPlayer {
                origin_row,
                term_width,
                term_height,
                frame: 0,
                showing_error: false,
                prev_area: None::<ImageDrawnArea>,
            }),
    {
        AnimationPlayer {
            origin_row,
            term_width,
            term_height,
            frame: 0,
            showing_error: false,
            prev_area: None,
        }
    }

    /// The actions beginning a playback: hide the text cursor.
    pub fn opening_actions(&self) -> (r: Vec<TermAction>)
        ensures
            r.deep_view() == seq![TermActionView::HideCursor],
    {
        let mut out: Vec<TermAction> = Vec::new();
        out.push(TermAction::HideCursor);
        proof {
            assert(out.deep_view() =~= seq![TermActionView::HideCursor]);
        }
        out
    }

    /// One playback tick: takes the latest known terminal size, advances one
    /// frame, and returns this frame's terminal actions.
    ///
    /// Undersized terminal: the alert line is printed exactly once per
    /// contiguous run of undersized frames and nothing is drawn. Otherwise:
    /// the border box, the covering window's composited frame, and the erase
    /// pass over exactly the cells of the previous rectangle that the new
    /// one does not cover (none on the first drawn frame).
    pub fn tick(&mut self, anim: &Animation, size: (u16, u16)) -> (actions: Vec<TermAction>)
        requires
            old(self).inv(),
            anim.wf(),
            drawable(*anim),
            old(self).frame < anim.spec_total_frames(),
        ensures
            final(self).inv(),
            final(self).origin_row == old(self).origin_row,
            final(self).frame == old(self).frame + 1,
            final(self).term_width == size.0,
            final(self).term_height == size.1,
            size.0 <= BOX_WIDTH || size.1 <= BOX_HEIGHT ==> ({
                &&& final(self).showing_error
                &&& final(self).prev_area == old(self).prev_area
                &&& actions.deep_view() == if old(self).showing_error {
                    seq![TermActionView::MoveTo(0, old(self).origin_row)]
                } else {
                    seq![
                        TermActionView::MoveTo(0, old(self).origin_row),
                        TermActionView::PrintAlert(spec_size_error_msg()),
                    ]
                }
            }),
            size.0 > BOX_WIDTH && size.1 > BOX_HEIGHT ==> ({
                let w = anim.windows@[spec_window_index(*anim, old(self).frame)];
                let area = spec_frame_area(w, old(self).origin_row);
                let erase = match old(self).prev_area {
                    Some(p) => spec_erase_actions(spec_erase_cells(p, area, 0)),
                    None => Seq::<TermActionView>::empty(),
                };
                &&& !final(self).showing_error
                &&& final(self).prev_area == Some(area)
                &&& actions.deep_view() == seq![TermActionView::MoveTo(0, old(self).origin_row)]
                    + spec_border_actions(old(self).origin_row, 0) + spec_frame_draw_actions(
                    w, old(self).origin_row,
                ) + erase + seq![TermActionView::Flush]
            }),
    {
        self.term_width = size.0;
        self.term_height = size.1;
        let origin = self.origin_row;
        let mut out: Vec<TermAction> = Vec::new();
        out.push(TermAction::MoveTo(0, origin));
        if size.0 <= BOX_WIDTH || size.1 <= BOX_HEIGHT {
            if !self.showing_error {
                self.showing_error = true;
                out.push(TermAction::PrintAlert(String::from_str(
                    "Error: Terminal too small to display your pet :(",
                )));
                proof {
                    assert(out.deep_view() =~= seq![
                        TermActionView::MoveTo(0, origin),
                        TermActionView::PrintAlert(spec_size_error_msg()),
                    ]);
                }
            } else {
                proof {
                    assert(out.deep_view() =~= seq![TermActionView::MoveTo(0, origin)]);
                }
            }
            self.frame = self.frame + 1;
            return out;
        }
        self.showing_error = false;
        let ghost prefix0 = seq![TermActionView::MoveTo(0, origin)];
        proof {
            assert(out.deep_view() =~= prefix0);
        }
        let mut border = border_actions(origin);
        out.append(&mut border);
        let ghost prefix1 = prefix0 + spec_border_actions(origin, 0);
        proof {
            assert(out.deep_view() =~= prefix1);
        }

        let wi = anim.find_window(self.frame);
        let window = &anim.windows[wi];
        proof {
            lemma_frame_maps_to_exactly_one_window(*anim, self.frame);
            let c = spec_window_index(*anim, self.frame);
            assert(window_contains(anim.windows@[c], self.frame));
            assert(c == wi as int);
        }
        let lines = split_lines(window.image.as_str());
        let empty_tag = String::new();
        let (ptext, pcolours) = pad_rows(&lines, &window.colours, ' ', &empty_tag);
        let img_w = max_row_width(&lines);
        let img_h = lines.len();
        proof {
            lemma_max_width_ge(lines.deep_view());
            assert(lines.deep_view() == spec_lines(window.image@));
            assert(img_w <= 2048);
            assert(img_h <= 2048);
        }
        let x = sat_add_signed(
            (BOX_WIDTH / 2).saturating_sub((img_w as u16) / 2),
            window.delta_x_from_center,
        );
        let y = sat_add_signed(
            (origin + BOX_HEIGHT / 2).saturating_sub((img_h as u16) / 2),
            window.delta_y_from_center,
        );
        proof {
            let rows = spec_lines(window.image@);
            let ptdv = ptext.deep_view();
            assert(ptdv == spec_padded_text(rows, ' '));
            assert(pcolours.deep_view() == spec_padded_colours(
                rows, window.colours.deep_view(), Seq::<char>::empty(),
            ));
            assert forall|i: int| 0 <= i < ptdv.len() implies #[trigger] pcolours.deep_view()[
                i
            ].len() == ptdv[i].len() by {
                assert(ptdv[i] == spec_pad_text_row(rows[i], spec_max_width(rows), ' '));
                assert(pcolours.deep_view()[i] == spec_pad_colour_row(
                    colour_row_or_empty(window.colours.deep_view(), i),
                    rows[i].len() as int,
                    spec_max_width(rows),
                    Seq::<char>::empty(),
                ));
            }
            if ptdv.len() > 0 {
                assert forall|i: int| 0 <= i < ptdv.len() implies #[trigger] ptdv[i].len()
                    == spec_max_width(rows) by {
                    assert(ptdv[i] == spec_pad_text_row(rows[i], spec_max_width(rows), ' '));
                }
                lemma_uniform_max_width(ptdv, spec_max_width(rows));
            }
            assert(x as int == spec_frame_x(*window));
            assert(y as int == spec_frame_y(*window, origin));
            assert(y + ptdv.len() <= u16::MAX);
            assert(spec_max_width(ptdv) <= u16::MAX);
        }
        let (mut draw, area) = draw_image_at(&ptext, &pcolours, x, y);
        out.append(&mut draw);
        let ghost prefix2 = prefix1 + spec_frame_draw_actions(*window, origin);
        proof {
            assert(area == spec_frame_area(*window, origin));
            assert(area.fits());
            assert(out.deep_view() =~= prefix2);
        }
        match &self.prev_area {
            Some(p) => {
                let prev = *p;
                let cells = cells_to_erase(&prev, &area);
                let mut erase = erase_actions(&cells);
                out.append(&mut erase);
                proof {
                    assert(out.deep_view() =~= prefix2 + spec_erase_actions(
                        spec_erase_cells(prev, area, 0),
                    ));
                }
            },
            None => {
                proof {
                    assert(out.deep_view() =~= prefix2 + Seq::<TermActionView>::empty());
                }
            },
        }
        self.prev_area = Some(area);
        out.push(TermAction::Flush);
        self.frame = self.frame + 1;
        proof {
            let w = anim.windows@[spec_window_index(*anim, old(self).frame)];
            assert(w == *window);
            assert(out.deep_view() =~= prefix0 + spec_border_actions(origin, 0)
                + spec_frame_draw_actions(w, origin) + (match old(self).prev_area {
                Some(p) => spec_erase_actions(spec_erase_cells(p, spec_frame_area(w, origin), 0)),
                None => Seq::<TermActionView>::empty(),
            }) + seq![TermActionView::Flush]);
        }
        out
    }

    /// The actions closing a playback: move the cursor below the box — by
    /// the box height, or by two rows if the undersize alert was showing —
    /// and restore cursor visibility.
    pub fn finish(&self) -> (r: Vec<TermAction>)
        requires
            self.inv(),
        ensures
            r.deep_view() == seq![
                TermActionView::MoveTo(
                    0,
                    (self.origin_row + if self.term_width <= BOX_WIDTH || self.term_height
                        <= BOX_HEIGHT {
                        2
                    } else {
                        BOX_HEIGHT as int
                    }) as u16,
                ),
                TermActionView::ShowCursor,
            ],
    {
        let dy: u16 = if self.term_width <= BOX_WIDTH || self.term_height <= BOX_HEIGHT {
            2
        } else {
            BOX_HEIGHT
        };
        let mut out: Vec<TermAction> = Vec::new();
        out.push(TermAction::MoveTo(0, self.origin_row + dy));
        out.push(TermAction::ShowCursor);
        proof {
            assert(out.deep_view() =~= seq![
                TermActionView::MoveTo(0, (self.origin_row + dy) as u16),
                TermActionView::ShowCursor,
            ]);
        }
        out
    }
}

/// The wall-clock pause between frames, in milliseconds.
pub fn frame_interval_ms(fps: u32) -> (r: u64)
    requires
        fps > 0,
    ensures
        r == 1000 as int / fps as int,
{
    (1000 / fps) as u64
}

} // verus!
