//! The animation model: an ordered, non-empty sequence of time-windows, each
//! mapping a contiguous frame range to an image, a colour grid and an offset,
//! plus the playback rate.
//!
//! The well-formedness invariant is contiguous coverage: windows are sorted,
//! the first starts at frame 0, and each window starts exactly one frame
//! after its predecessor ends, so frames `0 .. total_frames` are covered with
//! no gaps and no overlaps.

use vstd::prelude::*;

verus! {

/// One time-window: a static image with its colour grid and offset, shown
/// for every frame of an inclusive range.
#[derive(Clone, Debug)]
pub struct AnimationWindow {
    pub start_frame_inclusive: u64,
    pub end_frame_inclusive: u64,
    pub image: String,
    pub colours: Vec<Vec<String>>,
    pub delta_x_from_center: i16,
    pub delta_y_from_center: i16,
}

/// A time-sequenced animation: its windows and its frame rate.
#[derive(Clone, Debug)]
pub struct Animation {
    pub windows: Vec<AnimationWindow>,
    pub fps: u32,
}

/// Does window `w` cover frame `f`?
pub open spec fn window_contains(w: AnimationWindow, f: u64) -> bool {
    w.start_frame_inclusive <= f <= w.end_frame_inclusive
}

impl Animation {
    /// Contiguous coverage: non-empty, sorted windows starting at frame 0,
    /// each picking up exactly where its predecessor ended, with a positive
    /// frame rate and a representable total frame count.
    pub open spec fn wf(self) -> bool {
        &&& self.windows@.len() > 0
        &&& self.fps > 0
        &&& self.windows@[0].start_frame_inclusive == 0
        &&& forall|i: int|
            0 <= i < self.windows@.len() ==> #[trigger] self.windows@[i].start_frame_inclusive
                <= self.windows@[i].end_frame_inclusive
        &&& forall|i: int|
            0 <= i < self.windows@.len() - 1 ==> #[trigger] self.windows@[
                i + 1
            ].start_frame_inclusive == self.windows@[i].end_frame_inclusive + 1
        &&& self.windows@.last().end_frame_inclusive < u64::MAX
    }

    /// One past the last covered frame.
    pub open spec fn spec_total_frames(self) -> int {
        self.windows@.last().end_frame_inclusive + 1
    }

    /// The number of frames of the animation.
    pub fn total_frames(&self) -> (r: u64)
        requires
            self.wf(),
        ensures
            r == self.spec_total_frames(),
    {
        self.windows[self.windows.len() - 1].end_frame_inclusive + 1
    }

    /// Decides the contiguous-coverage invariant, so that whoever receives
    /// an animation from outside can fail fast instead of trusting the
    /// producer.
    pub fn is_well_formed(&self) -> (r: bool)
        ensures
            r == self.wf(),
    {
        let n = self.windows.len();
        if n == 0 {
            return false;
        }
        if self.fps == 0 {
            return false;
        }
        if self.windows[0].start_frame_inclusive != 0 {
            return false;
        }
        if self.windows[n - 1].end_frame_inclusive == u64::MAX {
            return false;
        }
        let mut i: usize = 0;
        while i < n
            invariant
                i <= n,
                n == self.windows@.len(),
                forall|j: int|
                    0 <= j < i ==> #[trigger] self.windows@[j].start_frame_inclusive
                        <= self.windows@[j].end_frame_inclusive,
                forall|j: int|
                    0 <= j < i && j < n - 1 ==> #[trigger] self.windows@[
                        j + 1
                    ].start_frame_inclusive == self.windows@[j].end_frame_inclusive + 1,
            decreases n - i,
        {
            let w = &self.windows[i];
            if w.start_frame_inclusive > w.end_frame_inclusive {
                return false;
            }
            if i < n - 1 {
                if w.end_frame_inclusive == u64::MAX {
                    proof {
                        if self.wf() {
                            assert(self.windows@[i as int + 1].start_frame_inclusive
                                == self.windows@[i as int].end_frame_inclusive + 1);
                        }
                    }
                    return false;
                }
                if self.windows[i + 1].start_frame_inclusive != w.end_frame_inclusive + 1 {
                    return false;
                }
            }
            i += 1;
        }
        true
    }

    /// The index of the window covering frame `f`: the linear scan the
    /// coverage invariant guarantees to succeed.
    pub fn find_window(&self, f: u64) -> (i: usize)
        requires
            self.wf(),
            f < self.spec_total_frames(),
        ensures
            i < self.windows@.len(),
            window_contains(self.windows@[i as int], f),
    {
        proof {
            lemma_frame_maps_to_exactly_one_window(*self, f);
        }
        let n = self.windows.len();
        let mut i: usize = 0;
        loop
            invariant
                self.wf(),
                f < self.spec_total_frames(),
                n == self.windows@.len(),
                i < n,
                forall|j: int| 0 <= j < i ==> !window_contains(self.windows@[j], f),
                exists|j: int|
                    0 <= j < self.windows@.len() && window_contains(self.windows@[j], f),
            decreases self.windows@.len() - i,
        {
            let w = &self.windows[i];
            if w.start_frame_inclusive <= f && f <= w.end_frame_inclusive {
                return i;
            }
            proof {
                let j = choose|j: int|
                    0 <= j < self.windows@.len() && window_contains(self.windows@[j], f);
                assert(j > i);
                assert(i + 1 < self.windows@.len());
            }
            i += 1;
        }
    }
}

/// Windows strictly later in the order cover strictly later frames.
pub proof fn lemma_windows_ordered(a: Animation, i: int, j: int)
    requires
        a.wf(),
        0 <= i < j < a.windows@.len(),
    ensures
        a.windows@[i].end_frame_inclusive < a.windows@[j].start_frame_inclusive,
    decreases j - i,
{
    if j == i + 1 {
        assert(a.windows@[i + 1].start_frame_inclusive == a.windows@[i].end_frame_inclusive + 1);
    } else {
        lemma_windows_ordered(a, i, j - 1);
        assert(a.windows@[j - 1 + 1].start_frame_inclusive == a.windows@[
            j - 1
        ].end_frame_inclusive + 1);
        assert(a.windows@[j - 1].start_frame_inclusive <= a.windows@[j - 1].end_frame_inclusive);
    }
}

proof fn lemma_coverage_from(a: Animation, f: u64, i: int)
    requires
        a.wf(),
        0 <= i < a.windows@.len(),
        a.windows@[i].start_frame_inclusive <= f,
        f < a.spec_total_frames(),
    ensures
        exists|j: int| i <= j < a.windows@.len() && window_contains(a.windows@[j], f),
    decreases a.windows@.len() - i,
{
    if f <= a.windows@[i].end_frame_inclusive {
        assert(window_contains(a.windows@[i], f));
    } else {
        if i == a.windows@.len() - 1 {
            assert(false);
        } else {
            lemma_coverage_from(a, f, i + 1);
        }
    }
}

/// Frame coverage: under the contiguous-coverage invariant, every frame
/// index below the total maps to exactly one window.
pub proof fn lemma_frame_maps_to_exactly_one_window(a: Animation, f: u64)
    requires
        a.wf(),
        f < a.spec_total_frames(),
    ensures
        exists|i: int| 0 <= i < a.windows@.len() && window_contains(a.windows@[i], f),
        forall|i: int, j: int|
            0 <= i < a.windows@.len() && 0 <= j < a.windows@.len() && window_contains(
                a.windows@[i], f,
            ) && window_contains(a.windows@[j], f) ==> i == j,
{
    lemma_coverage_from(a, f, 0);
    assert forall|i: int, j: int|
        0 <= i < a.windows@.len() && 0 <= j < a.windows@.len() && window_contains(a.windows@[i], f)
            && window_contains(a.windows@[j], f) implies i == j by {
        if i < j {
            lemma_windows_ordered(a, i, j);
        } else if j < i {
            lemma_windows_ordered(a, j, i);
        }
    }
}

/// The index of the window covering frame `f`, as a spec-level value; under
/// the invariant it is the unique such index.
pub open spec fn spec_window_index(a: Animation, f: u64) -> int {
    choose|i: int| 0 <= i < a.windows@.len() && window_contains(a.windows@[i], f)
}

} // verus!
