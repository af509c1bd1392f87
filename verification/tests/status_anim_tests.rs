use bitpet::{generate_pet_status_animation, get_pet_status_animation_for_frame, mock_pet, Pet};

fn pet_with(hunger: u64, happiness: u64) -> Pet {
    Pet {
        user_id: "u".to_string(),
        id: "p".to_string(),
        name: "paws".to_string(),
        level: 2,
        hunger,
        happiness,
        created_at: 0,
        streak: 4,
    }
}

#[test]
fn frame_face_follows_the_stats() {
    let (face, colours) = get_pet_status_animation_for_frame(&pet_with(10, 80), 1, false, false);
    assert_eq!(face, "/\\_/\\\n( ^.^ )\n=  U  =");
    assert_eq!(colours.len(), 3);
    assert_eq!(colours[0], vec!["#0000ff", "#0000ff", "#0000ff", "#0000ff", ""]);
    assert_eq!(colours[1], vec!["", "", "#00ff00", "", "#00ff00"]);
    assert_eq!(colours[2], vec!["", "", "", "#ff0000"]);

    let (face, colours) = get_pet_status_animation_for_frame(&pet_with(50, 10), 1, false, false);
    assert_eq!(face, "/\\_/\\\n( x.x )\n=  -  =");
    assert_eq!(colours[1], vec!["", "", "#ff0000", "", "#ff0000"]);

    let (face, _) = get_pet_status_animation_for_frame(&pet_with(90, 40), 1, false, false);
    assert_eq!(face, "/\\_/\\\n( o.o )\n=  ~  =");
}

#[test]
fn eyes_close_in_the_air_and_on_blink_frames() {
    let (face, _) = get_pet_status_animation_for_frame(&pet_with(50, 40), 7, true, false);
    assert_eq!(face, "/\\_/\\\n( -.- )\n=  -  =");
    // Once jumping is done, every fortieth frame blinks.
    let (face, _) = get_pet_status_animation_for_frame(&pet_with(50, 40), 80, false, true);
    assert_eq!(face, "/\\_/\\\n( -.- )\n=  -  =");
    // Frame zero never blinks.
    let (face, _) = get_pet_status_animation_for_frame(&pet_with(50, 40), 0, false, true);
    assert_eq!(face, "/\\_/\\\n( o.o )\n=  -  =");
}

#[test]
fn generated_animation_covers_a_hundred_frames_contiguously() {
    let pet = mock_pet();
    let anim = generate_pet_status_animation(&pet);
    assert_eq!(anim.fps, 30);
    assert!(!anim.windows.is_empty());
    assert_eq!(anim.windows[0].start_frame_inclusive, 0);
    for w in &anim.windows {
        assert!(w.start_frame_inclusive <= w.end_frame_inclusive);
    }
    for pair in anim.windows.windows(2) {
        assert_eq!(pair[1].start_frame_inclusive, pair[0].end_frame_inclusive + 1);
    }
    assert_eq!(anim.windows.last().unwrap().end_frame_inclusive, 99);
    assert_eq!(anim.total_frames(), 100);
}

#[test]
fn generated_animation_jumps_and_lands() {
    let pet = mock_pet();
    let anim = generate_pet_status_animation(&pet);
    // The pet starts on the baseline.
    assert_eq!(anim.windows[0].delta_y_from_center, 0);
    // Some window lifts the pet off the baseline (a jump)…
    assert!(anim.windows.iter().any(|w| w.delta_y_from_center < 0));
    // …and the animation ends back on it.
    assert_eq!(anim.windows.last().unwrap().delta_y_from_center, 0);
    // The first jump starts at frame 15 with a one-cell rise.
    let i = anim.find_window(15);
    assert_eq!(anim.windows[i].delta_y_from_center, -1);
    let i = anim.find_window(16);
    assert_eq!(anim.windows[i].delta_y_from_center, -2);
    let i = anim.find_window(19);
    assert_eq!(anim.windows[i].delta_y_from_center, 0);
    // Horizontal offsets never move.
    assert!(anim.windows.iter().all(|w| w.delta_x_from_center == 0));
}
