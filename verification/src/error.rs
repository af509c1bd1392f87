//! Error plumbing: every error of this crate carries the backtrace captured
//! where it arose.

use vstd::prelude::*;

verus! {

/// An error that carries a captured backtrace.
pub trait WithBacktrace {
    fn backtrace(&self) -> &String;
}

/// The common shape of this crate's errors.
pub trait CustomErrorTrait: WithBacktrace {
}

/// Relies on std's `Backtrace::capture`: a description of the call stack.
/// What it holds depends on the process and its environment, so nothing is
/// stated of it.
#[verifier::external_body]
pub(crate) fn capture_backtrace() -> String {
    std::backtrace::Backtrace::capture().to_string()
}

/// Wraps any error value together with the backtrace captured at wrap time.
#[derive(Debug)]
pub struct ErrorWithBacktrace<T> {
    pub error: T,
    pub backtrace: String,
}

impl<T> ErrorWithBacktrace<T> {
    /// Wraps `error`, capturing the backtrace here.
    pub fn new(error: T) -> (r: Self)
        ensures
            r.error == error,
    {
        Self { error, backtrace: capture_backtrace() }
    }
}

impl<T> WithBacktrace for ErrorWithBacktrace<T> {
    fn backtrace(&self) -> &String {
        &self.backtrace
    }
}

impl<T> CustomErrorTrait for ErrorWithBacktrace<T> {
}

/// A bare message, for errors that are nothing but text.
#[derive(Debug)]
pub struct StringError(pub String);

} // verus!
