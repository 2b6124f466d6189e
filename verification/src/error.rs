//! The error of the ready-made consumers and sources.

use crate::fanout::MaybeRetryable;
use vstd::prelude::*;

verus! {

/// An error that says in words what went wrong. It never forbids another
/// attempt.
#[derive(Debug)]
pub struct Error(pub String);

impl From<String> for Error {
    /// The error with `value` as its text.
    fn from(value: String) -> (error: Self) {
        Error(value)
    }
}

impl vstd::std_specs::convert::FromSpecImpl<String> for Error {
    open spec fn obeys_from_spec() -> bool {
        true
    }

    open spec fn from_spec(value: String) -> Self {
        Error(value)
    }
}

impl Error {
    /// The text of the error.
    pub fn message(&self) -> (text: &String)
        ensures
            *text == self.0,
    {
        &self.0
    }
}

impl MaybeRetryable for Error {
    open spec fn retryable(&self) -> bool {
        true
    }

    open spec fn failed(&self) -> bool {
        true
    }

    fn is_retryable(&self) -> (retryable: bool) {
        true
    }

    fn should_retry(&self) -> (failed: bool) {
        true
    }
}

} // verus!
