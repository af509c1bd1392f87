//! The authentication gate in front of every remote command.

use vstd::prelude::*;

use crate::config::{Config, UserInfo};
use crate::error::{capture_backtrace, CustomErrorTrait, WithBacktrace};

verus! {

/// Why an authenticated command could not run.
#[derive(Debug)]
pub enum AuthError {
    NotLoggedIn(String),
}

impl WithBacktrace for AuthError {
    fn backtrace(&self) -> &String {
        match self {
            AuthError::NotLoggedIn(s) => s,
        }
    }
}

impl CustomErrorTrait for AuthError {
}

/// The logged-in user, or the error an authenticated command fails with
/// when nobody is logged in.
pub fn require_auth(config: &Config) -> (r: Result<UserInfo, AuthError>)
    ensures
        config.user is Some ==> ({
            &&& r is Ok
            &&& r->Ok_0.username@ == config.user->0.username@
            &&& r->Ok_0.email@ == config.user->0.email@
            &&& r->Ok_0.token@ == config.user->0.token@
        }),
        config.user is None ==> r is Err && r->Err_0 is NotLoggedIn,
{
    match &config.user {
        Some(user) => Ok(
            UserInfo {
                username: user.username.clone(),
                email: user.email.clone(),
                token: user.token.clone(),
            },
        ),
        None => Err(AuthError::NotLoggedIn(capture_backtrace())),
    }
}

} // verus!
