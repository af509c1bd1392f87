use bitpet::{Animation, AnimationPlayer, AnimationWindow, ImageDrawnArea, StyledChar, TermAction};

fn two_window_animation() -> Animation {
    let image = "XXX\nXXX\nXXX".to_string();
    Animation {
        windows: vec![
            AnimationWindow {
                start_frame_inclusive: 0,
                end_frame_inclusive: 9,
                image: image.clone(),
                colours: vec![],
                delta_x_from_center: 0,
                delta_y_from_center: 0,
            },
            AnimationWindow {
                start_frame_inclusive: 10,
                end_frame_inclusive: 19,
                image,
                colours: vec![],
                delta_x_from_center: 0,
                delta_y_from_center: -2,
            },
        ],
        fps: 10,
    }
}

fn alerts(actions: &[TermAction]) -> usize {
    actions.iter().filter(|a| matches!(a, TermAction::PrintAlert(_))).count()
}

/// The cells blanked by this tick: every cursor move immediately followed
/// by a bare space glyph.
fn erased_cells(actions: &[TermAction]) -> Vec<(u16, u16)> {
    let mut out = Vec::new();
    for pair in actions.windows(2) {
        if let (TermAction::MoveTo(x, y), TermAction::PrintGlyph(StyledChar::Plain(' '))) =
            (&pair[0], &pair[1])
        {
            out.push((*x, *y));
        }
    }
    out
}

#[test]
fn two_window_playback_shifts_up_and_erases_the_vacated_rows() {
    let anim = two_window_animation();
    let mut player = AnimationPlayer::new(5, 80, 24);
    let mut all_alerts = 0;
    for t in 0..20u64 {
        assert_eq!(player.frame, t);
        let actions = player.tick(&anim, (80, 24));
        all_alerts += alerts(&actions);
        if t < 10 {
            // Window A sits still: centred three-by-three block.
            assert_eq!(
                player.prev_area,
                Some(ImageDrawnArea { start_x: 21, start_y: 9, width: 3, height: 3 })
            );
            assert_eq!(erased_cells(&actions), vec![]);
        } else {
            // Window B is two rows higher.
            assert_eq!(
                player.prev_area,
                Some(ImageDrawnArea { start_x: 21, start_y: 7, width: 3, height: 3 })
            );
            if t == 10 {
                // The transition blanks exactly the two vacated rows.
                assert_eq!(
                    erased_cells(&actions),
                    vec![(21, 10), (22, 10), (23, 10), (21, 11), (22, 11), (23, 11)]
                );
            } else {
                assert_eq!(erased_cells(&actions), vec![]);
            }
        }
        assert!(matches!(actions.last(), Some(TermAction::Flush)));
    }
    assert_eq!(all_alerts, 0);
    let closing = player.finish();
    assert!(matches!(closing[0], TermAction::MoveTo(0, 15)));
    assert!(matches!(closing[1], TermAction::ShowCursor));
}

#[test]
fn undersized_terminal_prints_one_alert_and_draws_nothing() {
    let anim = two_window_animation();
    let mut player = AnimationPlayer::new(5, 80, 24);
    let mut all_alerts = 0;
    let mut glyphs = 0;
    for _ in 0..20u64 {
        let actions = player.tick(&anim, (30, 5));
        all_alerts += alerts(&actions);
        glyphs += actions.iter().filter(|a| matches!(a, TermAction::PrintGlyph(_))).count();
        glyphs += actions.iter().filter(|a| matches!(a, TermAction::Print(_))).count();
    }
    assert_eq!(all_alerts, 1);
    assert_eq!(glyphs, 0);
    assert_eq!(player.prev_area, None);
    // The cursor ends two rows down, not a full box height.
    let closing = player.finish();
    assert!(matches!(closing[0], TermAction::MoveTo(0, 7)));
    assert!(matches!(closing[1], TermAction::ShowCursor));
}

#[test]
fn resize_recovers_from_the_error_state() {
    let anim = two_window_animation();
    let mut player = AnimationPlayer::new(0, 80, 24);
    let a0 = player.tick(&anim, (30, 5));
    assert_eq!(alerts(&a0), 1);
    let a1 = player.tick(&anim, (30, 5));
    assert_eq!(alerts(&a1), 0);
    // Resized back above the threshold: rendering resumes.
    let a2 = player.tick(&anim, (80, 24));
    assert_eq!(alerts(&a2), 0);
    assert!(player.prev_area.is_some());
    assert!(!player.showing_error);
    // Shrunk again: the alert is printed once more.
    let a3 = player.tick(&anim, (40, 24));
    assert_eq!(alerts(&a3), 1);
}

#[test]
fn border_is_drawn_at_the_origin_row() {
    let anim = two_window_animation();
    let mut player = AnimationPlayer::new(3, 100, 40);
    let actions = player.tick(&anim, (100, 40));
    // First the cursor restore, then the top border row at the origin.
    assert!(matches!(actions[0], TermAction::MoveTo(0, 3)));
    assert!(matches!(actions[1], TermAction::MoveTo(0, 3)));
    match &actions[2] {
        TermAction::Print(s) => {
            assert_eq!(s.chars().count(), 45);
            assert!(s.starts_with('\u{250c}'));
            assert!(s.ends_with('\u{2510}'));
        },
        other => panic!("expected the top border row, got {:?}", other),
    }
}

#[test]
fn frame_interval_follows_the_declared_rate() {
    assert_eq!(bitpet::frame_interval_ms(10), 100);
    assert_eq!(bitpet::frame_interval_ms(30), 33);
    assert_eq!(bitpet::frame_interval_ms(60), 16);
}
