//! The pet data model and the API result shapes the remote service returns,
//! with the pet status display.
//!
//! Stats (level, hunger, happiness) are whole points on a 0–100 scale.

use vstd::prelude::*;

use crate::animation::Animation;
use crate::numfmt::{spec_u64_dec, u64_to_string};

verus! {

/// A pet and its current stats.
#[derive(Clone, Debug)]
pub struct Pet {
    pub user_id: String,
    pub id: String,
    pub name: String,
    pub level: u64,
    pub hunger: u64,
    pub happiness: u64,
    pub created_at: u64,
    pub streak: u64,
}

/// A coding challenge the pet may ask for.
#[derive(Clone, Debug)]
pub struct Challenge {
    pub id: String,
    pub description: String,
    pub answer_type: ChallengeAnswerType,
}

/// How a challenge answer is supplied.
#[derive(Clone, Copy, Debug, PartialEq, Eq, Structural)]
pub enum ChallengeAnswerType {
    Text,
    File,
}

impl Default for ChallengeAnswerType {
    /// The default answer form is free text.
    fn default() -> (r: Self)
        ensures
            r == ChallengeAnswerType::Text,
    {
        ChallengeAnswerType::Text
    }
}

impl Challenge {
    /// The challenge as the terminal shows it: a framed block with the id
    /// and the highlighted description.
    pub fn display_string(&self) -> (r: String)
        ensures
            r@ == "==========\nChallenge ID: "@ + self.id@ + "\n\n\u{1b}[34m"@ + self.description@
                + "\u{1b}[0m\n=========="@,
    {
        let mut s = String::from_str("==========\nChallenge ID: ");
        s.append(self.id.as_str());
        s.append("\n\n\u{1b}[34m");
        s.append(self.description.as_str());
        s.append("\u{1b}[0m\n==========");
        s
    }
}

/// The status endpoint's payload.
pub struct StatusAPIResult {
    pub animation: Animation,
    pub pet: Pet,
}

/// How a feeding went.
#[derive(Clone, Copy, Debug, PartialEq, Eq, Structural)]
pub enum FeedStatus {
    FeedSuccess,
    TooMuchFood,
    AskForChallenge,
    NoFood,
}

/// The feed endpoint's payload.
pub struct FeedAPIResult {
    pub animation: Option<Animation>,
    pub status: FeedStatus,
    pub challenge: Option<Challenge>,
    pub pet: Option<Pet>,
    pub text_before_animation: Option<String>,
}

/// Whether a submitted challenge answer was accepted.
#[derive(Clone, Copy, Debug, PartialEq, Eq, Structural)]
pub enum ChallengeAnswerStatus {
    Correct,
    Incorrect,
}

/// The challenge-answer endpoint's payload.
pub struct ChallengeAnswerAPIResult {
    pub status: ChallengeAnswerStatus,
    pub feed_result: Option<FeedAPIResult>,
}

/// How a play session went.
#[derive(Clone, Copy, Debug, PartialEq, Eq, Structural)]
pub enum PlayStatus {
    PlaySuccess,
    TooMuchPlay,
}

/// The play endpoint's payload.
pub struct PlayAPIResult {
    pub animation: Option<Animation>,
    pub status: PlayStatus,
    pub pet: Option<Pet>,
    pub text_before_animation: Option<String>,
}

/// The update-check endpoint's payload.
pub struct UpdateCheckAPIResult {
    pub update_available: bool,
}

/// A stat's traffic-light rating, used to style its printed value.
#[derive(Clone, Copy, Debug, PartialEq, Eq, Structural)]
pub enum StatClass {
    Green,
    Yellow,
    Red,
}

/// Hunger rating: low hunger is good.
pub open spec fn spec_hunger_class(h: int) -> StatClass {
    if h <= 30 {
        StatClass::Green
    } else if h <= 75 {
        StatClass::Yellow
    } else {
        StatClass::Red
    }
}

/// Happiness rating: low happiness is bad.
pub open spec fn spec_happiness_class(h: int) -> StatClass {
    if h <= 30 {
        StatClass::Red
    } else if h <= 75 {
        StatClass::Yellow
    } else {
        StatClass::Green
    }
}

/// Rates a hunger value.
pub fn hunger_class(h: u64) -> (r: StatClass)
    ensures
        r == spec_hunger_class(h as int),
{
    if h <= 30 {
        StatClass::Green
    } else if h <= 75 {
        StatClass::Yellow
    } else {
        StatClass::Red
    }
}

/// Rates a happiness value.
pub fn happiness_class(h: u64) -> (r: StatClass)
    ensures
        r == spec_happiness_class(h as int),
{
    if h <= 30 {
        StatClass::Red
    } else if h <= 75 {
        StatClass::Yellow
    } else {
        StatClass::Green
    }
}

/// Relies on colored's `Colorize::green`: styles text for the terminal. The
/// result depends on the environment (tty detection, NO_COLOR), so nothing
/// more is stated.
#[verifier::external_body]
fn paint_green(text: String) -> (r: String) {
    colored::Colorize::green(text.as_str()).to_string()
}

/// Relies on colored's `Colorize::yellow`; see `paint_green`.
#[verifier::external_body]
fn paint_yellow(text: String) -> (r: String) {
    colored::Colorize::yellow(text.as_str()).to_string()
}

/// Relies on colored's `Colorize::red`; see `paint_green`.
#[verifier::external_body]
fn paint_red(text: String) -> (r: String) {
    colored::Colorize::red(text.as_str()).to_string()
}

/// Relies on std's `SystemTime::now` and `UNIX_EPOCH`: the wall clock, in
/// milliseconds since the epoch. The result depends on the machine's clock,
/// so nothing is stated of it.
#[verifier::external_body]
pub fn now_unix_millis() -> u64 {
    match std::time::SystemTime::now().duration_since(std::time::UNIX_EPOCH) {
        Ok(d) => d.as_millis() as u64,
        Err(_) => 0,
    }
}

/// The hunger value, formatted and styled by its rating.
pub fn get_hunger_color(hunger: u64) -> String {
    let text = u64_to_string(hunger);
    match hunger_class(hunger) {
        StatClass::Green => paint_green(text),
        StatClass::Yellow => paint_yellow(text),
        StatClass::Red => paint_red(text),
    }
}

/// The happiness value, formatted and styled by its rating.
pub fn get_happiness_color(happiness: u64) -> String {
    let text = u64_to_string(happiness);
    match happiness_class(happiness) {
        StatClass::Green => paint_green(text),
        StatClass::Yellow => paint_yellow(text),
        StatClass::Red => paint_red(text),
    }
}

/// The pet status block, over already-styled stat texts.
pub open spec fn spec_pet_display(
    name: Seq<char>,
    level: int,
    hunger_text: Seq<char>,
    happiness_text: Seq<char>,
    streak: int,
    age_days: int,
) -> Seq<char> {
    "Here is how "@ + name + " is feeling:\n- Level: "@ + spec_u64_dec(level)
        + "\n- Hunger: "@ + hunger_text + "\n- Happiness: "@ + happiness_text
        + "\n- Coding streak days: "@ + spec_u64_dec(streak) + "\n- Age: "@
        + spec_u64_dec(age_days) + " days"@
}

/// Builds the pet status block from the pet, its age in days, and the
/// styled hunger and happiness texts.
pub fn pet_display_text(pet: &Pet, age_days: u64, hunger_text: &String, happiness_text: &String)
    -> (r: String)
    ensures
        r@ == spec_pet_display(
            pet.name@,
            pet.level as int,
            hunger_text@,
            happiness_text@,
            pet.streak as int,
            age_days as int,
        ),
{
    let mut s = String::from_str("Here is how ");
    s.append(pet.name.as_str());
    s.append(" is feeling:\n- Level: ");
    let level = u64_to_string(pet.level);
    s.append(level.as_str());
    s.append("\n- Hunger: ");
    s.append(hunger_text.as_str());
    s.append("\n- Happiness: ");
    s.append(happiness_text.as_str());
    s.append("\n- Coding streak days: ");
    let streak = u64_to_string(pet.streak);
    s.append(streak.as_str());
    s.append("\n- Age: ");
    let age = u64_to_string(age_days);
    s.append(age.as_str());
    s.append(" days");
    s
}

/// The pet status block: name, level, styled hunger and happiness, streak,
/// and the age in days of the wall clock since creation. The styled stat
/// texts and the clock come from the environment; the block's shape around
/// them is fixed.
pub fn get_pet_display(pet: &Pet) -> (r: String)
    ensures
        exists|hunger_text: Seq<char>, happiness_text: Seq<char>, age_days: int|
            0 <= age_days && r@ == #[trigger] spec_pet_display(
                pet.name@, pet.level as int, hunger_text, happiness_text, pet.streak as int,
                age_days,
            ),
{
    let now = now_unix_millis();
    let age_days = now.saturating_sub(pet.created_at) / (1000 * 60 * 60 * 24);
    let hunger_text = get_hunger_color(pet.hunger);
    let happiness_text = get_happiness_color(pet.happiness);
    let r = pet_display_text(pet, age_days, &hunger_text, &happiness_text);
    proof {
        assert(r@ == spec_pet_display(
            pet.name@, pet.level as int, hunger_text@, happiness_text@, pet.streak as int,
            age_days as int,
        ));
    }
    r
}

} // verus!
