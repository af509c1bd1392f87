//! The drawn-area rectangle and incremental erasure: the set of terminal
//! cells covered by the previous frame but not by the current one is the
//! exact set to blank, so a frame change never clears the whole box.

use vstd::prelude::*;

verus! {

/// The bounding rectangle, in terminal cell coordinates, occupied by the
/// most recently drawn composited frame.
#[derive(Clone, Copy, Debug, PartialEq, Eq, Structural)]
pub struct ImageDrawnArea {
    pub start_x: u16,
    pub start_y: u16,
    pub width: u16,
    pub height: u16,
}

impl ImageDrawnArea {
    /// Is the cell `(x, y)` inside this rectangle?
    pub open spec fn contains_cell(self, x: int, y: int) -> bool {
        &&& self.start_x <= x < self.start_x + self.width
        &&& self.start_y <= y < self.start_y + self.height
    }

    /// The rectangle stays inside the `u16` cell coordinate space.
    pub open spec fn fits(self) -> bool {
        &&& self.start_x + self.width <= u16::MAX
        &&& self.start_y + self.height <= u16::MAX
    }
}

/// The cells of row `y` of `prev`, from column offset `k` on, that `curr`
/// does not cover, in increasing column order.
pub open spec fn spec_erase_row(prev: ImageDrawnArea, curr: ImageDrawnArea, y: u16, k: int) -> Seq<
    (u16, u16),
>
    decreases prev.width - k when 0 <= k <= prev.width && prev.fits()
{
    if k >= prev.width {
        Seq::empty()
    } else {
        let x = (prev.start_x + k) as u16;
        let rest = spec_erase_row(prev, curr, y, k + 1);
        if curr.contains_cell(x as int, y as int) {
            rest
        } else {
            seq![(x, y)] + rest
        }
    }
}

/// The cells of `prev`, from row offset `r` on, that `curr` does not cover,
/// in row-major order.
pub open spec fn spec_erase_cells(prev: ImageDrawnArea, curr: ImageDrawnArea, r: int) -> Seq<
    (u16, u16),
>
    decreases prev.height - r when 0 <= r <= prev.height && prev.fits()
{
    if r >= prev.height {
        Seq::empty()
    } else {
        spec_erase_row(prev, curr, (prev.start_y + r) as u16, 0) + spec_erase_cells(
            prev, curr, r + 1,
        )
    }
}

proof fn lemma_erase_row_characterised(prev: ImageDrawnArea, curr: ImageDrawnArea, y: u16, k: int)
    requires
        prev.fits(),
        0 <= k <= prev.width,
    ensures
        forall|c: (u16, u16)| #[trigger] spec_erase_row(prev, curr, y, k).contains(c) <==> {
            &&& c.1 == y
            &&& prev.start_x + k <= c.0 < prev.start_x + prev.width
            &&& !curr.contains_cell(c.0 as int, c.1 as int)
        },
    decreases prev.width - k,
{
    if k >= prev.width {
    } else {
        lemma_erase_row_characterised(prev, curr, y, k + 1);
        let x = (prev.start_x + k) as u16;
        let rest = spec_erase_row(prev, curr, y, k + 1);
        let whole = spec_erase_row(prev, curr, y, k);
        assert forall|c: (u16, u16)| #[trigger] whole.contains(c) implies {
            &&& c.1 == y
            &&& prev.start_x + k <= c.0 < prev.start_x + prev.width
            &&& !curr.contains_cell(c.0 as int, c.1 as int)
        } by {
            if !curr.contains_cell(x as int, y as int) {
                let i = choose|i: int| 0 <= i < whole.len() && whole[i] == c;
                if i == 0 {
                } else {
                    assert(rest[i - 1] == c);
                    assert(rest.contains(c));
                }
            }
        }
        assert forall|c: (u16, u16)|
            {
                &&& c.1 == y
                &&& prev.start_x + k <= c.0 < prev.start_x + prev.width
                &&& !curr.contains_cell(c.0 as int, c.1 as int)
            } implies #[trigger] whole.contains(c) by {
            if c.0 == x {
                if !curr.contains_cell(x as int, y as int) {
                    assert(whole[0] == c);
                }
            } else {
                assert(rest.contains(c));
                if !curr.contains_cell(x as int, y as int) {
                    let i = choose|i: int| 0 <= i < rest.len() && rest[i] == c;
                    assert(whole[i + 1] == c);
                }
            }
        }
    }
}

proof fn lemma_erase_cells_characterised(prev: ImageDrawnArea, curr: ImageDrawnArea, r: int)
    requires
        prev.fits(),
        0 <= r <= prev.height,
    ensures
        forall|c: (u16, u16)| #[trigger] spec_erase_cells(prev, curr, r).contains(c) <==> {
            &&& prev.start_x <= c.0 < prev.start_x + prev.width
            &&& prev.start_y + r <= c.1 < prev.start_y + prev.height
            &&& !curr.contains_cell(c.0 as int, c.1 as int)
        },
    decreases prev.height - r,
{
    if r >= prev.height {
    } else {
        lemma_erase_cells_characterised(prev, curr, r + 1);
        let y = (prev.start_y + r) as u16;
        lemma_erase_row_characterised(prev, curr, y, 0);
        let row = spec_erase_row(prev, curr, y, 0);
        let rest = spec_erase_cells(prev, curr, r + 1);
        let whole = spec_erase_cells(prev, curr, r);
        assert forall|c: (u16, u16)| #[trigger] whole.contains(c) implies {
            &&& prev.start_x <= c.0 < prev.start_x + prev.width
            &&& prev.start_y + r <= c.1 < prev.start_y + prev.height
            &&& !curr.contains_cell(c.0 as int, c.1 as int)
        } by {
            let i = choose|i: int| 0 <= i < whole.len() && whole[i] == c;
            if i < row.len() {
                assert(row[i] == c);
                assert(row.contains(c));
            } else {
                assert(rest[i - row.len()] == c);
                assert(rest.contains(c));
            }
        }
        assert forall|c: (u16, u16)|
            {
                &&& prev.start_x <= c.0 < prev.start_x + prev.width
                &&& prev.start_y + r <= c.1 < prev.start_y + prev.height
                &&& !curr.contains_cell(c.0 as int, c.1 as int)
            } implies #[trigger] whole.contains(c) by {
            assert(whole == row + rest);
            if c.1 == y {
                assert(row.contains(c));
                let i = choose|i: int| 0 <= i < row.len() && row[i] == c;
                assert(whole[i] == row[i]);
                assert(whole[i] == c);
            } else {
                assert(rest.contains(c));
                let i = choose|i: int| 0 <= i < rest.len() && rest[i] == c;
                assert(whole[row.len() + i] == rest[i]);
                assert(whole[row.len() + i] == c);
            }
        }
    }
}

/// Rectangle diffing: the cells to erase between two drawn areas are exactly
/// the set difference `prev \ curr` of the two rectangles' cell sets.
pub proof fn lemma_erase_is_set_difference(prev: ImageDrawnArea, curr: ImageDrawnArea)
    requires
        prev.fits(),
    ensures
        forall|c: (u16, u16)| #[trigger] spec_erase_cells(prev, curr, 0).contains(c) <==> (
        prev.contains_cell(c.0 as int, c.1 as int) && !curr.contains_cell(c.0 as int, c.1 as int)),
{
    lemma_erase_cells_characterised(prev, curr, 0);
}

/// The cells covered by `prev` but not by `curr`, in row-major order.
pub fn cells_to_erase(prev: &ImageDrawnArea, curr: &ImageDrawnArea) -> (r: Vec<(u16, u16)>)
    requires
        prev.fits(),
    ensures
        r@ == spec_erase_cells(*prev, *curr, 0),
        forall|c: (u16, u16)| #[trigger] r@.contains(c) <==> (prev.contains_cell(
            c.0 as int, c.1 as int,
        ) && !curr.contains_cell(c.0 as int, c.1 as int)),
{
    let mut out: Vec<(u16, u16)> = Vec::new();
    let mut rr: u16 = 0;
    proof {
        assert(out@ + spec_erase_cells(*prev, *curr, 0) =~= spec_erase_cells(*prev, *curr, 0));
    }
    while rr < prev.height
        invariant
            0 <= rr <= prev.height,
            prev.fits(),
            spec_erase_cells(*prev, *curr, 0) == out@ + spec_erase_cells(*prev, *curr, rr as int),
        decreases prev.height - rr,
    {
        let y = prev.start_y + rr;
        let ghost row_spec = spec_erase_row(*prev, *curr, y, 0);
        let ghost out_at_row_start = out@;
        let mut k: u16 = 0;
        proof {
            assert(out@ + (row_spec.subrange(0, 0) + spec_erase_row(*prev, *curr, y, 0))
                =~= out@ + row_spec);
        }
        while k < prev.width
            invariant
                0 <= k <= prev.width,
                prev.fits(),
                y == prev.start_y + rr,
                out_at_row_start + row_spec == out@ + spec_erase_row(*prev, *curr, y, k as int),
            decreases prev.width - k,
        {
            let x = prev.start_x + k;
            let inside_curr = curr.start_x <= x && (x as u32) < (curr.start_x as u32) + (
            curr.width as u32) && curr.start_y <= y && (y as u32) < (curr.start_y as u32) + (
            curr.height as u32);
            proof {
                assert(spec_erase_row(*prev, *curr, y, k as int) == if curr.contains_cell(
                    x as int, y as int,
                ) {
                    spec_erase_row(*prev, *curr, y, k as int + 1)
                } else {
                    seq![(x, y)] + spec_erase_row(*prev, *curr, y, k as int + 1)
                });
            }
            if !inside_curr {
                let ghost before = out@;
                out.push((x, y));
                proof {
                    assert(before + (seq![(x, y)] + spec_erase_row(*prev, *curr, y, k as int + 1))
                        =~= out@ + spec_erase_row(*prev, *curr, y, k as int + 1));
                }
            }
            k += 1;
        }
        proof {
            assert(spec_erase_row(*prev, *curr, y, prev.width as int) =~= Seq::<(u16, u16)>::empty());
            assert(out@ + Seq::<(u16, u16)>::empty() =~= out@);
            assert(out@ == out_at_row_start + row_spec);
            assert(spec_erase_cells(*prev, *curr, rr as int) == row_spec + spec_erase_cells(
                *prev, *curr, rr as int + 1,
            ));
            assert(out_at_row_start + (row_spec + spec_erase_cells(*prev, *curr, rr as int + 1))
                =~= out@ + spec_erase_cells(*prev, *curr, rr as int + 1));
        }
        rr += 1;
    }
    proof {
        assert(spec_erase_cells(*prev, *curr, prev.height as int) =~= Seq::<(u16, u16)>::empty());
        assert(out@ + Seq::<(u16, u16)>::empty() =~= out@);
        lemma_erase_is_set_difference(*prev, *curr);
    }
    out
}

} // verus!
