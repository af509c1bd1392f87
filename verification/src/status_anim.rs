//! The procedurally generated pet-status animation: a hundred frames of the
//! pet's face, with up to three little jumps, grouped into windows of
//! identical consecutive frames.

use vstd::prelude::*;

use crate::animation::{window_contains, Animation, AnimationWindow};
use crate::pet::Pet;
use crate::text::{colour_grid_eq, push_char, str_eq};

verus! {

/// The number of frames of the status animation.
pub const STATUS_FRAMES: u64 = 100;

/// The jump bookkeeping carried from one frame to the next: the current
/// vertical offset, how many jumps have happened, and the frame of the
/// latest jump.
pub ghost struct JumpState {
    pub dy: int,
    pub jumps: int,
    pub last: int,
}

/// One step of the jump bookkeeping at frame `f`: every fifteenth frame
/// starts one of up to three jumps (one cell up); for three frames after a
/// jump the pet keeps rising then hangs; otherwise it falls back two cells
/// per frame, stopping at the baseline.
pub open spec fn jump_step(prev: JumpState, f: int) -> JumpState {
    if f == 0 || f % 15 != 0 || prev.jumps >= 3 {
        let dy = if f > 1 && f - prev.last <= 3 {
            if f - prev.last == 1 {
                prev.dy - 1
            } else {
                prev.dy
            }
        } else {
            if prev.dy + 2 > 0 {
                0
            } else {
                prev.dy + 2
            }
        };
        JumpState { dy, jumps: prev.jumps, last: prev.last }
    } else {
        JumpState { dy: prev.dy - 1, jumps: prev.jumps + 1, last: f }
    }
}

/// The jump bookkeeping after frame `f`; `f == -1` is the initial state.
pub open spec fn jump_state(f: int) -> JumpState
    decreases f + 1 when f >= -1
{
    if f <= -1 {
        JumpState { dy: 0, jumps: 0, last: 0 }
    } else {
        jump_step(jump_state(f - 1), f)
    }
}

/// The jump bookkeeping stays in a narrow band: the offset is at most zero
/// and falls at most one cell per frame, at most three jumps happen, and
/// the latest jump is never in the future.
pub proof fn lemma_jump_state_bounds(f: int)
    requires
        f >= -1,
    ensures
        -(f + 2) <= jump_state(f).dy <= 0,
        0 <= jump_state(f).jumps <= 3,
        0 <= jump_state(f).last,
        jump_state(f).last <= if f <= 0 {
            0
        } else {
            f
        },
    decreases f + 1,
{
    if f <= -1 {
    } else {
        lemma_jump_state_bounds(f - 1);
    }
}

/// The eyes of the face: closed while in the air and on every fortieth
/// frame once the jumps are done, otherwise set by happiness.
pub open spec fn spec_eyes(happiness: int, f: int, in_air: bool, done: bool) -> Seq<char> {
    if in_air {
        "-.-"@
    } else if done && f % 40 == 0 && f != 0 {
        "-.-"@
    } else if happiness < 20 {
        "x.x"@
    } else if happiness < 70 {
        "o.o"@
    } else {
        "^.^"@
    }
}

/// The tongue of the face, set by hunger.
pub open spec fn spec_tongue(hunger: int) -> char {
    if hunger < 20 {
        'U'
    } else if hunger < 70 {
        '-'
    } else {
        '~'
    }
}

/// The eye colour tag, set by happiness.
pub open spec fn spec_eye_colour(happiness: int) -> Seq<char> {
    if happiness < 20 {
        "#ff0000"@
    } else if happiness < 70 {
        "#0000ff"@
    } else {
        "#00ff00"@
    }
}

/// The face text of one frame.
pub open spec fn spec_face_text(
    happiness: int,
    hunger: int,
    f: int,
    in_air: bool,
    done: bool,
) -> Seq<char> {
    "/\\_/\\\n( "@ + spec_eyes(happiness, f, in_air, done) + " )\n=  "@ + seq![
        spec_tongue(hunger),
    ] + "  ="@
}

/// The colour grid of one frame: blue ears, happiness-coloured eyes, a red
/// tongue.
pub open spec fn spec_face_colours(happiness: int) -> Seq<Seq<Seq<char>>> {
    seq![
        seq!["#0000ff"@, "#0000ff"@, "#0000ff"@, "#0000ff"@, ""@],
        seq![""@, ""@, spec_eye_colour(happiness), ""@, spec_eye_colour(happiness)],
        seq![""@, ""@, ""@, "#ff0000"@],
    ]
}

/// The pet's face and its colour grid for one frame of the status
/// animation.
pub fn get_pet_status_animation_for_frame(
    pet: &Pet,
    curr_frame: u64,
    is_in_the_air: bool,
    is_done_jumping: bool,
) -> (r: (String, Vec<Vec<String>>))
    ensures
        r.0@ == spec_face_text(
            pet.happiness as int,
            pet.hunger as int,
            curr_frame as int,
            is_in_the_air,
            is_done_jumping,
        ),
        r.1.deep_view() == spec_face_colours(pet.happiness as int),
{
    let eye_colour: &str = if pet.happiness < 20 {
        "#ff0000"
    } else if pet.happiness < 70 {
        "#0000ff"
    } else {
        "#00ff00"
    };
    let mut eyes: &str = if pet.happiness < 20 {
        "x.x"
    } else if pet.happiness < 70 {
        "o.o"
    } else {
        "^.^"
    };
    if is_done_jumping && curr_frame % 40 == 0 && curr_frame != 0 {
        eyes = "-.-";
    }
    if is_in_the_air {
        eyes = "-.-";
    }
    let tongue: char = if pet.hunger < 20 {
        'U'
    } else if pet.hunger < 70 {
        '-'
    } else {
        '~'
    };
    let mut face = String::from_str("/\\_/\\\n( ");
    face.append(eyes);
    face.append(" )\n=  ");
    push_char(&mut face, tongue);
    face.append("  =");

    let mut row0: Vec<String> = Vec::new();
    row0.push(String::from_str("#0000ff"));
    row0.push(String::from_str("#0000ff"));
    row0.push(String::from_str("#0000ff"));
    row0.push(String::from_str("#0000ff"));
    row0.push(String::new());
    let mut row1: Vec<String> = Vec::new();
    row1.push(String::new());
    row1.push(String::new());
    row1.push(String::from_str(eye_colour));
    row1.push(String::new());
    row1.push(String::from_str(eye_colour));
    let mut row2: Vec<String> = Vec::new();
    row2.push(String::new());
    row2.push(String::new());
    row2.push(String::new());
    row2.push(String::from_str("#ff0000"));
    proof {
        reveal_strlit("");
        assert(""@ =~= Seq::<char>::empty());
        assert(row0.deep_view() =~= seq!["#0000ff"@, "#0000ff"@, "#0000ff"@, "#0000ff"@, ""@]);
        assert(row1.deep_view() =~= seq![
            ""@,
            ""@,
            spec_eye_colour(pet.happiness as int),
            ""@,
            spec_eye_colour(pet.happiness as int),
        ]);
        assert(row2.deep_view() =~= seq![""@, ""@, ""@, "#ff0000"@]);
    }
    let ghost g0 = row0.deep_view();
    let ghost g1 = row1.deep_view();
    let ghost g2 = row2.deep_view();
    let mut colours: Vec<Vec<String>> = Vec::new();
    colours.push(row0);
    colours.push(row1);
    colours.push(row2);
    proof {
        assert(face@ =~= spec_face_text(
            pet.happiness as int,
            pet.hunger as int,
            curr_frame as int,
            is_in_the_air,
            is_done_jumping,
        ));
        assert(colours.deep_view()[0] == g0);
        assert(colours.deep_view()[1] == g1);
        assert(colours.deep_view()[2] == g2);
        assert(colours.deep_view() =~= spec_face_colours(pet.happiness as int));
    }
    (face, colours)
}

/// Does a window's content equal the status-animation frame `f` of `pet`?
pub open spec fn frame_matches(
    pet: Pet,
    f: int,
    img: Seq<char>,
    cols: Seq<Seq<Seq<char>>>,
    dx: int,
    dy: int,
) -> bool {
    let st = jump_state(f);
    &&& img == spec_face_text(pet.happiness as int, pet.hunger as int, f, st.dy < 0, st.jumps >= 3)
    &&& cols == spec_face_colours(pet.happiness as int)
    &&& dx == 0
    &&& dy == st.dy
}

/// Generates the hundred-frame status animation for `pet` at thirty frames
/// a second: consecutive identical frames are grouped into one window, the
/// windows cover the frames contiguously, and every covered frame's window
/// holds exactly that frame's face, colours and offset.
pub fn generate_pet_status_animation(pet: &Pet) -> (r: Animation)
    ensures
        r.wf(),
        r.fps == 30,
        r.spec_total_frames() == STATUS_FRAMES,
        forall|i: int, f: u64|
            0 <= i < r.windows@.len() && #[trigger] window_contains(r.windows@[i], f)
                ==> frame_matches(
                *pet,
                f as int,
                r.windows@[i].image@,
                r.windows@[i].colours.deep_view(),
                r.windows@[i].delta_x_from_center as int,
                r.windows@[i].delta_y_from_center as int,
            ),
{
    let fps: u32 = 30;
    let mut windows: Vec<AnimationWindow> = Vec::new();
    let mut curr_window_start: u64 = 0;
    let mut curr_frame: u64 = 0;
    let mut previous_delta_x_from_center: i16 = 0;
    let mut previous_delta_y_from_center: i16 = 0;
    let mut previous_image: Option<String> = None;
    let mut previous_colours: Option<Vec<Vec<String>>> = None;
    let mut total_jumps: u64 = 0;
    let mut last_jump_frame: u64 = 0;
    while curr_frame < STATUS_FRAMES
        invariant
            0 <= curr_frame <= STATUS_FRAMES,
            curr_frame == 0 ==> windows@.len() == 0 && curr_window_start == 0 && previous_image
                is None && previous_colours is None,
            curr_frame > 0 ==> previous_image is Some && previous_colours is Some
                && curr_window_start < curr_frame,
            previous_delta_x_from_center == 0,
            previous_delta_y_from_center as int == jump_state(curr_frame - 1).dy,
            total_jumps as int == jump_state(curr_frame - 1).jumps,
            last_jump_frame as int == jump_state(curr_frame - 1).last,
            windows@.len() == 0 ==> curr_window_start == 0,
            windows@.len() > 0 ==> windows@[0].start_frame_inclusive == 0,
            windows@.len() > 0 ==> windows@.last().end_frame_inclusive + 1 == curr_window_start,
            forall|i: int|
                0 <= i < windows@.len() ==> #[trigger] windows@[i].start_frame_inclusive
                    <= windows@[i].end_frame_inclusive,
            forall|i: int|
                0 <= i < windows@.len() - 1 ==> #[trigger] windows@[i + 1].start_frame_inclusive
                    == windows@[i].end_frame_inclusive + 1,
            forall|i: int, f: u64|
                0 <= i < windows@.len() && #[trigger] window_contains(windows@[i], f)
                    ==> frame_matches(
                    *pet,
                    f as int,
                    windows@[i].image@,
                    windows@[i].colours.deep_view(),
                    windows@[i].delta_x_from_center as int,
                    windows@[i].delta_y_from_center as int,
                ),
            curr_frame > 0 ==> forall|f: u64|
                curr_window_start <= f < curr_frame ==> frame_matches(
                    *pet,
                    f as int,
                    previous_image->0@,
                    previous_colours->0.deep_view(),
                    previous_delta_x_from_center as int,
                    previous_delta_y_from_center as int,
                ),
        decreases STATUS_FRAMES - curr_frame,
    {
        proof {
            lemma_jump_state_bounds(curr_frame - 1);
        }
        let delta_x_from_center: i16 = 0;
        let delta_y_from_center: i16 = if curr_frame == 0 || curr_frame % 15 != 0 || total_jumps
            >= 3 {
            if curr_frame > 1 && curr_frame - last_jump_frame <= 3 {
                if curr_frame - last_jump_frame == 1 {
                    previous_delta_y_from_center - 1
                } else {
                    previous_delta_y_from_center
                }
            } else {
                let risen = previous_delta_y_from_center + 2;
                if risen > 0 {
                    0
                } else {
                    risen
                }
            }
        } else {
            total_jumps = total_jumps + 1;
            last_jump_frame = curr_frame;
            previous_delta_y_from_center - 1
        };
        proof {
            assert(jump_state(curr_frame as int) == jump_step(
                jump_state(curr_frame - 1),
                curr_frame as int,
            ));
            assert(delta_y_from_center as int == jump_state(curr_frame as int).dy);
            assert(total_jumps as int == jump_state(curr_frame as int).jumps);
            assert(last_jump_frame as int == jump_state(curr_frame as int).last);
        }
        let (image, colours) = get_pet_status_animation_for_frame(
            pet,
            curr_frame,
            delta_y_from_center < 0,
            total_jumps >= 3,
        );
        let content_equal = match (&previous_image, &previous_colours) {
            (Some(pi), Some(pc)) => previous_delta_x_from_center == delta_x_from_center
                && previous_delta_y_from_center == delta_y_from_center && str_eq(
                pi.as_str(),
                image.as_str(),
            ) && colour_grid_eq(pc, &colours),
            _ => false,
        };
        if content_equal {
            proof {
                assert(frame_matches(
                    *pet,
                    curr_frame as int,
                    previous_image->0@,
                    previous_colours->0.deep_view(),
                    previous_delta_x_from_center as int,
                    previous_delta_y_from_center as int,
                ));
            }
            curr_frame = curr_frame + 1;
        } else {
            let ghost old_windows = windows@;
            match (previous_image, previous_colours) {
                (Some(img), Some(cols)) => {
                    windows.push(AnimationWindow {
                        start_frame_inclusive: curr_window_start,
                        end_frame_inclusive: curr_frame - 1,
                        image: img,
                        colours: cols,
                        delta_x_from_center: previous_delta_x_from_center,
                        delta_y_from_center: previous_delta_y_from_center,
                    });
                },
                _ => {},
            }
            proof {
                assert forall|i: int, f: u64|
                    0 <= i < windows@.len() && #[trigger] window_contains(windows@[i], f)
                        implies frame_matches(
                    *pet,
                    f as int,
                    windows@[i].image@,
                    windows@[i].colours.deep_view(),
                    windows@[i].delta_x_from_center as int,
                    windows@[i].delta_y_from_center as int,
                ) by {
                    if i < old_windows.len() {
                        assert(windows@[i] == old_windows[i]);
                    }
                }
            }
            previous_delta_x_from_center = delta_x_from_center;
            previous_delta_y_from_center = delta_y_from_center;
            curr_window_start = curr_frame;
            previous_image = Some(image);
            previous_colours = Some(colours);
            curr_frame = curr_frame + 1;
        }
    }
    let final_image = match previous_image {
        Some(img) => img,
        None => String::new(),
    };
    let final_colours = match previous_colours {
        Some(cols) => cols,
        None => Vec::new(),
    };
    let ghost old_windows = windows@;
    windows.push(AnimationWindow {
        start_frame_inclusive: curr_window_start,
        end_frame_inclusive: curr_frame - 1,
        image: final_image,
        colours: final_colours,
        delta_x_from_center: previous_delta_x_from_center,
        delta_y_from_center: previous_delta_y_from_center,
    });
    let r = Animation { windows, fps };
    proof {
        assert(r.windows@.last().end_frame_inclusive == STATUS_FRAMES - 1);
        assert forall|i: int, f: u64|
            0 <= i < r.windows@.len() && #[trigger] window_contains(r.windows@[i], f)
                implies frame_matches(
            *pet,
            f as int,
            r.windows@[i].image@,
            r.windows@[i].colours.deep_view(),
            r.windows@[i].delta_x_from_center as int,
            r.windows@[i].delta_y_from_center as int,
        ) by {
            if i < old_windows.len() {
                assert(r.windows@[i] == old_windows[i]);
            }
        }
        assert forall|i: int|
            0 <= i < r.windows@.len() - 1 implies #[trigger] r.windows@[
            i + 1
        ].start_frame_inclusive == r.windows@[i].end_frame_inclusive + 1 by {
            if i < old_windows.len() - 1 {
                assert(r.windows@[i] == old_windows[i]);
                assert(r.windows@[i + 1] == old_windows[i + 1]);
            }
        }
    }
    r
}

} // verus!
