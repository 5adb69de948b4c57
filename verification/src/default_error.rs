//! The error that every fallible operation of the crate reports.

use vstd::prelude::*;

verus! {

/// A message for the user, with the backtrace of the failure where one was taken.
#[derive(Debug)]
pub struct DefaultError {
    pub message: String,
    pub backtrace: Option<String>,
}

impl DefaultError {
    /// An error with the given message and no backtrace.
    pub fn new(message: String) -> (error: DefaultError)
        ensures
            error.message == message,
            error.backtrace is None,
    {
        DefaultError { message, backtrace: None }
    }
}

} // verus!
