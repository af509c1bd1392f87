//! The offline mock of the remote pet service: given the request's path,
//! bearer token and (for login) the submitted code, decides the canned
//! response. The HTTP plumbing around it only serialises what this returns.

use vstd::prelude::*;

use crate::animation::{window_contains, Animation};
use crate::pet::{
    Challenge, ChallengeAnswerAPIResult, ChallengeAnswerStatus, ChallengeAnswerType,
    FeedAPIResult, FeedStatus, Pet, PlayAPIResult, PlayStatus, StatusAPIResult,
};
use crate::status_anim::{frame_matches, generate_pet_status_animation, STATUS_FRAMES};
use crate::text::str_eq;

verus! {

pub const LOGIN_PATH: &'static str = "/api/login";

pub const LOGOUT_PATH: &'static str = "/api/logout";

pub const DOES_PET_EXIST_PATH: &'static str = "/api/pet/exists";

pub const STATUS_PATH: &'static str = "/api/pet/status";

pub const FEED_PATH: &'static str = "/api/pet/feed";

pub const CHALLENGE_ANS_PATH: &'static str = "/api/pet/challenge-answer";

pub const PLAY_PATH: &'static str = "/api/pet/play";

pub const UPDATE_CHECK_PATH: &'static str = "/api/update-check";

/// The typed body of a canned response.
pub enum MockBody {
    LoginOk { username: String, email: String, token: String },
    Text(String),
    Empty,
    Status(StatusAPIResult),
    Feed(FeedAPIResult),
    ChallengeAnswer(ChallengeAnswerAPIResult),
    Play(PlayAPIResult),
}

/// One canned response: an HTTP status and a typed body.
pub struct MockResponse {
    pub status: u16,
    pub body: MockBody,
}

/// Does the authorization header carry the mock token?
pub open spec fn spec_bearer_ok(auth: Option<Seq<char>>) -> bool {
    auth is Some && auth->0 == "Bearer mock-token"@
}

/// The fields of the mock pet.
pub open spec fn spec_is_mock_pet(p: Pet) -> bool {
    &&& p.user_id@ == "mock-user-id"@
    &&& p.id@ == "mock-pet-id"@
    &&& p.name@ == "mock-name"@
    &&& p.level == 0
    &&& p.hunger == 40
    &&& p.happiness == 40
    &&& p.created_at == 0
    &&& p.streak == 0
}

/// The pet the mock service owns.
pub fn mock_pet() -> (r: Pet)
    ensures
        spec_is_mock_pet(r),
{
    Pet {
        user_id: String::from_str("mock-user-id"),
        id: String::from_str("mock-pet-id"),
        name: String::from_str("mock-name"),
        level: 0,
        hunger: 40,
        happiness: 40,
        created_at: 0,
        streak: 0,
    }
}

/// The status animation the mock returns for a pet: well formed, a hundred
/// frames at thirty a second, every frame showing that pet.
pub open spec fn spec_is_status_animation(a: Animation, p: Pet) -> bool {
    &&& a.wf()
    &&& a.fps == 30
    &&& a.spec_total_frames() == STATUS_FRAMES
    &&& forall|i: int, f: u64|
        0 <= i < a.windows@.len() && #[trigger] window_contains(a.windows@[i], f)
            ==> frame_matches(
            p,
            f as int,
            a.windows@[i].image@,
            a.windows@[i].colours.deep_view(),
            a.windows@[i].delta_x_from_center as int,
            a.windows@[i].delta_y_from_center as int,
        )
}

/// Decides the canned response for one request: `None` stands for passing
/// the request through to the real service.
pub fn mock_response_for(
    path: &str,
    authorization: Option<&String>,
    login_user_code: Option<&String>,
) -> (r: Option<MockResponse>)
    ensures
        ({
            let auth = match authorization {
                Some(a) => Some(a@),
                None => None,
            };
            let code = match login_user_code {
                Some(c) => Some(c@),
                None => None,
            };
            &&& path@ == LOGIN_PATH@ ==> if code == Some("-9999"@) {
                &&& r is Some
                &&& r->0.status == 200
                &&& r->0.body matches MockBody::LoginOk { username, email, token } && username@
                    == "mock-username"@ && email@ == "mock@bitpet.dev"@ && token@ == "mock-token"@
            } else {
                r is None
            }
            &&& path@ == LOGOUT_PATH@ ==> if spec_bearer_ok(auth) {
                &&& r is Some
                &&& r->0.status == 200
                &&& r->0.body matches MockBody::Text(t) && t@ == "Logged out successfully!"@
            } else {
                r is None
            }
            &&& path@ == DOES_PET_EXIST_PATH@ ==> if spec_bearer_ok(auth) {
                r is Some && r->0.status == 200 && r->0.body is Empty
            } else {
                r is None
            }
            &&& path@ == STATUS_PATH@ ==> if spec_bearer_ok(auth) {
                &&& r is Some
                &&& r->0.status == 200
                &&& r->0.body matches MockBody::Status(s) && spec_is_mock_pet(s.pet)
                    && spec_is_status_animation(s.animation, s.pet)
            } else {
                r is None
            }
            &&& path@ == FEED_PATH@ ==> if spec_bearer_ok(auth) {
                &&& r is Some
                &&& r->0.status == 200
                &&& r->0.body matches MockBody::Feed(fr) && fr.animation is None
                    && fr.text_before_animation is None && fr.status == FeedStatus::AskForChallenge
                    && fr.pet is None && (fr.challenge matches Some(c) && c.id@
                    == "mock-challenge-id"@ && c.answer_type == ChallengeAnswerType::Text && c
                    .description@
                    == "You are given an array in which you need to sort all the numbers.\nImplement this!"@)
            } else {
                r is None
            }
            &&& path@ == CHALLENGE_ANS_PATH@ ==> if spec_bearer_ok(auth) {
                &&& r is Some
                &&& r->0.status == 200
                &&& r->0.body matches MockBody::ChallengeAnswer(ca) && ca.feed_result is None
                    && ca.status == ChallengeAnswerStatus::Incorrect
            } else {
                r is None
            }
            &&& path@ == PLAY_PATH@ ==> if spec_bearer_ok(auth) {
                &&& r is Some
                &&& r->0.status == 200
                &&& r->0.body matches MockBody::Play(pr) && pr.animation is None && pr.status
                    == PlayStatus::TooMuchPlay && (pr.pet matches Some(p) && spec_is_mock_pet(p))
                    && (pr.text_before_animation matches Some(t) && t@ == "mock-name"@
                    + " is in no mood to play right now! Please try later, or consider feeding them instead or just taking a break!"@)
            } else {
                r is None
            }
            &&& (path@ != LOGIN_PATH@ && path@ != LOGOUT_PATH@ && path@ != DOES_PET_EXIST_PATH@
                && path@ != STATUS_PATH@ && path@ != FEED_PATH@ && path@ != CHALLENGE_ANS_PATH@
                && path@ != PLAY_PATH@) ==> r is None
        }),
{
    let bearer_ok = match authorization {
        Some(a) => str_eq(a.as_str(), "Bearer mock-token"),
        None => false,
    };
    if str_eq(path, LOGIN_PATH) {
        let code_ok = match login_user_code {
            Some(c) => str_eq(c.as_str(), "-9999"),
            None => false,
        };
        proof {
            lemma_mock_paths_distinct();
        }
        if code_ok {
            Some(
                MockResponse {
                    status: 200,
                    body: MockBody::LoginOk {
                        username: String::from_str("mock-username"),
                        email: String::from_str("mock@bitpet.dev"),
                        token: String::from_str("mock-token"),
                    },
                },
            )
        } else {
            None
        }
    } else if str_eq(path, LOGOUT_PATH) {
        proof {
            lemma_mock_paths_distinct();
        }
        if bearer_ok {
            Some(
                MockResponse {
                    status: 200,
                    body: MockBody::Text(String::from_str("Logged out successfully!")),
                },
            )
        } else {
            None
        }
    } else if str_eq(path, DOES_PET_EXIST_PATH) {
        proof {
            lemma_mock_paths_distinct();
        }
        if bearer_ok {
            Some(MockResponse { status: 200, body: MockBody::Empty })
        } else {
            None
        }
    } else if str_eq(path, STATUS_PATH) {
        proof {
            lemma_mock_paths_distinct();
        }
        if bearer_ok {
            let pet = mock_pet();
            let animation = generate_pet_status_animation(&pet);
            Some(
                MockResponse {
                    status: 200,
                    body: MockBody::Status(StatusAPIResult { animation, pet }),
                },
            )
        } else {
            None
        }
    } else if str_eq(path, FEED_PATH) {
        proof {
            lemma_mock_paths_distinct();
        }
        if bearer_ok {
            Some(
                MockResponse {
                    status: 200,
                    body: MockBody::Feed(
                        FeedAPIResult {
                            animation: None,
                            text_before_animation: None,
                            status: FeedStatus::AskForChallenge,
                            challenge: Some(
                                Challenge {
                                    id: String::from_str("mock-challenge-id"),
                                    description: String::from_str(
                                        "You are given an array in which you need to sort all the numbers.\nImplement this!",
                                    ),
                                    answer_type: ChallengeAnswerType::Text,
                                },
                            ),
                            pet: None,
                        },
                    ),
                },
            )
        } else {
            None
        }
    } else if str_eq(path, CHALLENGE_ANS_PATH) {
        proof {
            lemma_mock_paths_distinct();
        }
        if bearer_ok {
            Some(
                MockResponse {
                    status: 200,
                    body: MockBody::ChallengeAnswer(
                        ChallengeAnswerAPIResult {
                            feed_result: None,
                            status: ChallengeAnswerStatus::Incorrect,
                        },
                    ),
                },
            )
        } else {
            None
        }
    } else if str_eq(path, PLAY_PATH) {
        proof {
            lemma_mock_paths_distinct();
        }
        if bearer_ok {
            let pet = mock_pet();
            let mut text = pet.name.clone();
            text.append(
                " is in no mood to play right now! Please try later, or consider feeding them instead or just taking a break!",
            );
            Some(
                MockResponse {
                    status: 200,
                    body: MockBody::Play(
                        PlayAPIResult {
                            animation: None,
                            text_before_animation: Some(text),
                            status: PlayStatus::TooMuchPlay,
                            pet: Some(pet),
                        },
                    ),
                },
            )
        } else {
            None
        }
    } else {
        None
    }
}

/// The mock endpoints' paths are pairwise distinct.
proof fn lemma_mock_paths_distinct()
    ensures
        LOGIN_PATH@ != LOGOUT_PATH@,
        LOGIN_PATH@ != DOES_PET_EXIST_PATH@,
        LOGIN_PATH@ != STATUS_PATH@,
        LOGIN_PATH@ != FEED_PATH@,
        LOGIN_PATH@ != CHALLENGE_ANS_PATH@,
        LOGIN_PATH@ != PLAY_PATH@,
        LOGOUT_PATH@ != DOES_PET_EXIST_PATH@,
        LOGOUT_PATH@ != STATUS_PATH@,
        LOGOUT_PATH@ != FEED_PATH@,
        LOGOUT_PATH@ != CHALLENGE_ANS_PATH@,
        LOGOUT_PATH@ != PLAY_PATH@,
        DOES_PET_EXIST_PATH@ != STATUS_PATH@,
        DOES_PET_EXIST_PATH@ != FEED_PATH@,
        DOES_PET_EXIST_PATH@ != CHALLENGE_ANS_PATH@,
        DOES_PET_EXIST_PATH@ != PLAY_PATH@,
        STATUS_PATH@ != FEED_PATH@,
        STATUS_PATH@ != CHALLENGE_ANS_PATH@,
        STATUS_PATH@ != PLAY_PATH@,
        FEED_PATH@ != CHALLENGE_ANS_PATH@,
        FEED_PATH@ != PLAY_PATH@,
        CHALLENGE_ANS_PATH@ != PLAY_PATH@,
{
    reveal_strlit("/api/login");
    reveal_strlit("/api/logout");
    reveal_strlit("/api/pet/exists");
    reveal_strlit("/api/pet/status");
    reveal_strlit("/api/pet/feed");
    reveal_strlit("/api/pet/challenge-answer");
    reveal_strlit("/api/pet/play");
    assert(LOGIN_PATH@.len() == 10);
    assert(LOGOUT_PATH@.len() == 11);
    assert(DOES_PET_EXIST_PATH@.len() == 15);
    assert(STATUS_PATH@.len() == 15);
    assert(FEED_PATH@.len() == 13);
    assert(CHALLENGE_ANS_PATH@.len() == 25);
    assert(PLAY_PATH@.len() == 13);
    assert(DOES_PET_EXIST_PATH@[9] == 'e');
    assert(STATUS_PATH@[9] == 's');
    assert(FEED_PATH@[9] == 'f');
    assert(PLAY_PATH@[9] == 'p');
}

} // verus!
