use bitpet::{
    feed_repo_keys, get_pet_display, is_git, pet_display_text, u64_to_string, Challenge,
    ChallengeAnswerType, ErrorWithBacktrace, Pet, StringError,
};

#[test]
fn decimal_formatting_is_exact() {
    assert_eq!(u64_to_string(0), "0");
    assert_eq!(u64_to_string(7), "7");
    assert_eq!(u64_to_string(10), "10");
    assert_eq!(u64_to_string(109), "109");
    assert_eq!(u64_to_string(18446744073709551615), "18446744073709551615");
}

#[test]
fn repo_keys_are_sha256_hex_digests() {
    let keys = feed_repo_keys(&vec!["test".to_string()]);
    assert_eq!(keys, vec![
        "9f86d081884c7d659a2feaa0c55ad015a3bf4f1b2b0b822cd15d6c15b0f00a08".to_string(),
    ]);
    assert_eq!(feed_repo_keys(&vec![]).len(), 0);
}

#[test]
fn git_work_tree_check_needs_one_marker() {
    assert!(!is_git(&vec![]));
    assert!(!is_git(&vec![false, false]));
    assert!(is_git(&vec![true]));
    assert!(is_git(&vec![false, false, true, false]));
}

#[test]
fn wrapped_errors_keep_their_payload() {
    let wrapped = ErrorWithBacktrace::new(StringError("boom".to_string()));
    assert_eq!(wrapped.error.0, "boom");
}

#[test]
fn challenge_display_frames_the_description() {
    let c = Challenge {
        id: "c1".to_string(),
        description: "do the thing".to_string(),
        answer_type: ChallengeAnswerType::Text,
    };
    assert_eq!(
        c.display_string(),
        "==========\nChallenge ID: c1\n\n\u{1b}[34mdo the thing\u{1b}[0m\n=========="
    );
}

fn sample_pet() -> Pet {
    Pet {
        user_id: "u".to_string(),
        id: "p".to_string(),
        name: "paws".to_string(),
        level: 3,
        hunger: 20,
        happiness: 90,
        created_at: 0,
        streak: 5,
    }
}

#[test]
fn pet_display_text_is_exact_over_given_stat_texts() {
    let s = pet_display_text(&sample_pet(), 12, &"H".to_string(), &"P".to_string());
    assert_eq!(
        s,
        "Here is how paws is feeling:\n- Level: 3\n- Hunger: H\n- Happiness: P\n- Coding streak days: 5\n- Age: 12 days"
    );
}

#[test]
fn pet_display_carries_the_pet_stats() {
    let s = get_pet_display(&sample_pet());
    assert!(s.starts_with("Here is how paws is feeling:"));
    assert!(s.contains("- Level: 3"));
    assert!(s.contains("20"));
    assert!(s.contains("90"));
    assert!(s.contains("- Coding streak days: 5"));
    assert!(s.ends_with(" days"));
}

#[test]
fn day_rounding_lands_on_midnight() {
    assert_eq!(bitpet::start_of_day_ms(86400123, 1), Some(2 * 86400000));
    assert_eq!(bitpet::start_of_day_ms(0, 0), Some(0));
    assert_eq!(bitpet::start_of_day_ms(u64::MAX, 1), None);
    let t = bitpet::get_start_of_day_ms_time(3).unwrap();
    assert_eq!(t % 86400000, 0);
}
