//! The compositor's errors.

use vstd::prelude::*;

verus! {

/// What went wrong, with a message for the log.
#[derive(Debug)]
pub enum CompositorError {
    /// The event loop could not be set up or run.
    EventLoop(String),
    /// A backend, the configuration or a request was refused.
    Backend(String),
}

/// A `CompositorError` as plain text.
pub enum Failure {
    EventLoop(Seq<char>),
    Backend(Seq<char>),
}

impl View for CompositorError {
    type V = Failure;

    open spec fn view(&self) -> Failure {
        match self {
            CompositorError::EventLoop(message) => Failure::EventLoop(message@),
            CompositorError::Backend(message) => Failure::Backend(message@),
        }
    }
}

/// A result whose error is a message of the backend.
pub open spec fn outcome<T>(result: Result<T, CompositorError>) -> Result<T, Failure> {
    match result {
        Ok(value) => Ok(value),
        Err(error) => Err(error@),
    }
}

/// The failure with this message.
pub open spec fn refused<T>(message: Seq<char>) -> Result<T, Failure> {
    Err(Failure::Backend(message))
}

impl CompositorError {
    /// The message, without its kind.
    pub fn message(&self) -> (message: &str)
        ensures
            self@ == Failure::Backend(message@) || self@ == Failure::EventLoop(message@),
    {
        match self {
            CompositorError::EventLoop(message) => message.as_str(),
            CompositorError::Backend(message) => message.as_str(),
        }
    }
}

} // verus!
