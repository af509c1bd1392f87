//! A command-line virtual-pet toy: the terminal animation player that renders
//! a time-sequenced ASCII image inside a fixed bordered viewport, together
//! with the pure data model and decision logic of the surrounding commands.

mod animation;
mod area;
mod auth;
mod clock;
mod colour;
mod commands;
mod compositor;
mod config;
mod error;
mod feed;
mod git;
mod mock;
mod numfmt;
mod paths;
mod pet;
mod player;
mod renderer;
mod status_anim;
mod text;

pub use animation::{lemma_frame_maps_to_exactly_one_window, spec_window_index, window_contains,
    Animation, AnimationWindow};
pub use area::{cells_to_erase, lemma_erase_is_set_difference, spec_erase_cells, ImageDrawnArea};
pub use auth::{require_auth, AuthError};
pub use clock::{get_start_of_day_ms_time, start_of_day_ms, spec_start_of_day_ms, DAY_MS};
pub use colour::{colourise, hex_to_rgb, is_valid_colour_tag, lemma_colour_tag_round_trip,
    spec_colourise, spec_hex_to_rgb, spec_tag_colour, Rgb, StyledChar};
pub use commands::Commands;
pub use compositor::{lemma_centre_pad_right_bias, lemma_padding_never_mutates,
    pad_image_and_colours, pad_rows, spec_left_pad, spec_max_width, spec_pad_colour_row,
    spec_pad_text_row, spec_padded_colours, spec_padded_text};
pub use config::{Config, UserInfo};
pub use error::{CustomErrorTrait, ErrorWithBacktrace, StringError, WithBacktrace};
pub use feed::feed_repo_keys;
pub use git::{commits_from_git_log, git_date_timestamp_ms, parse_commit_block, spec_block_skips,
    spec_block_date_str, Commit, GitError};
pub use mock::{mock_pet, mock_response_for, MockBody, MockResponse, CHALLENGE_ANS_PATH,
    DOES_PET_EXIST_PATH, FEED_PATH, LOGIN_PATH, LOGOUT_PATH, PLAY_PATH, STATUS_PATH,
    UPDATE_CHECK_PATH};
pub use numfmt::{spec_u64_dec, u64_to_string};
pub use paths::{is_git, NormalisedGitPath, NormalisedPathError};
pub use pet::{get_hunger_color, get_happiness_color, get_pet_display, happiness_class,
    hunger_class, pet_display_text, Challenge, ChallengeAnswerAPIResult, ChallengeAnswerStatus,
    ChallengeAnswerType, FeedAPIResult, FeedStatus, Pet, PlayAPIResult, PlayStatus, StatClass,
    StatusAPIResult, UpdateCheckAPIResult};
pub use player::{drawable, frame_interval_ms, is_drawable, spec_border_actions, spec_frame_area,
    spec_frame_draw_actions, spec_size_error_msg, AnimationPlayer, BOX_HEIGHT, BOX_WIDTH};
pub use renderer::{spec_draw_rows, spec_erase_actions, spec_sat_add_signed, TermAction,
    TermActionView};
pub use status_anim::{generate_pet_status_animation, get_pet_status_animation_for_frame};
