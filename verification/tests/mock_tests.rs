use bitpet::{
    mock_pet, mock_response_for, ChallengeAnswerStatus, ChallengeAnswerType, FeedStatus,
    MockBody, MockResponse, PlayStatus,
};

fn bearer() -> Option<String> {
    Some("Bearer mock-token".to_string())
}

fn bad_bearer() -> Option<String> {
    Some("Bearer wrong".to_string())
}

#[test]
fn login_accepts_only_the_mock_code() {
    let code = "-9999".to_string();
    let r = mock_response_for("/api/login", None, Some(&code));
    match r {
        Some(MockResponse { status: 200, body: MockBody::LoginOk { username, email, token } }) => {
            assert_eq!(username, "mock-username");
            assert_eq!(email, "mock@bitpet.dev");
            assert_eq!(token, "mock-token");
        },
        _ => panic!("expected the canned login response"),
    }
    let wrong = "1234".to_string();
    assert!(mock_response_for("/api/login", None, Some(&wrong)).is_none());
    assert!(mock_response_for("/api/login", None, None).is_none());
}

#[test]
fn logout_and_existence_need_the_token() {
    let auth = bearer();
    match mock_response_for("/api/logout", auth.as_ref(), None) {
        Some(MockResponse { status: 200, body: MockBody::Text(t) }) => {
            assert_eq!(t, "Logged out successfully!");
        },
        _ => panic!("expected the canned logout response"),
    }
    let bad = bad_bearer();
    assert!(mock_response_for("/api/logout", bad.as_ref(), None).is_none());
    assert!(mock_response_for("/api/logout", None, None).is_none());

    match mock_response_for("/api/pet/exists", auth.as_ref(), None) {
        Some(MockResponse { status: 200, body: MockBody::Empty }) => {},
        _ => panic!("expected the canned existence response"),
    }
}

#[test]
fn status_returns_the_mock_pet_and_its_animation() {
    let auth = bearer();
    match mock_response_for("/api/pet/status", auth.as_ref(), None) {
        Some(MockResponse { status: 200, body: MockBody::Status(s) }) => {
            assert_eq!(s.pet.name, "mock-name");
            assert_eq!(s.pet.hunger, 40);
            assert_eq!(s.pet.happiness, 40);
            assert_eq!(s.animation.fps, 30);
            assert_eq!(s.animation.total_frames(), 100);
        },
        _ => panic!("expected the canned status response"),
    }
}

#[test]
fn feed_asks_for_a_challenge() {
    let auth = bearer();
    match mock_response_for("/api/pet/feed", auth.as_ref(), None) {
        Some(MockResponse { status: 200, body: MockBody::Feed(f) }) => {
            assert!(matches!(f.status, FeedStatus::AskForChallenge));
            assert!(f.animation.is_none());
            assert!(f.pet.is_none());
            assert!(f.text_before_animation.is_none());
            let c = f.challenge.unwrap();
            assert_eq!(c.id, "mock-challenge-id");
            assert!(matches!(c.answer_type, ChallengeAnswerType::Text));
            assert!(c.description.contains("sort all the numbers"));
        },
        _ => panic!("expected the canned feed response"),
    }
}

#[test]
fn challenge_answers_are_rejected_and_play_is_refused() {
    let auth = bearer();
    match mock_response_for("/api/pet/challenge-answer", auth.as_ref(), None) {
        Some(MockResponse { status: 200, body: MockBody::ChallengeAnswer(a) }) => {
            assert!(matches!(a.status, ChallengeAnswerStatus::Incorrect));
            assert!(a.feed_result.is_none());
        },
        _ => panic!("expected the canned challenge response"),
    }
    match mock_response_for("/api/pet/play", auth.as_ref(), None) {
        Some(MockResponse { status: 200, body: MockBody::Play(p) }) => {
            assert!(matches!(p.status, PlayStatus::TooMuchPlay));
            assert_eq!(
                p.text_before_animation.unwrap(),
                "mock-name is in no mood to play right now! Please try later, or consider feeding them instead or just taking a break!"
            );
            assert_eq!(p.pet.unwrap().name, "mock-name");
        },
        _ => panic!("expected the canned play response"),
    }
}

#[test]
fn unknown_paths_pass_through() {
    let auth = bearer();
    assert!(mock_response_for("/api/unknown", auth.as_ref(), None).is_none());
    assert!(mock_response_for("", auth.as_ref(), None).is_none());
}

#[test]
fn the_mock_pet_is_fixed() {
    let p = mock_pet();
    assert_eq!(p.user_id, "mock-user-id");
    assert_eq!(p.id, "mock-pet-id");
    assert_eq!((p.level, p.hunger, p.happiness), (0, 40, 40));
    assert_eq!((p.created_at, p.streak), (0, 0));
}
