//! Retrying error handler around fallible operations.

use vstd::prelude::*;
use crate::errors::GpuShareError;

verus! {

/// A plain system-level error with its message.
#[derive(Debug, Clone, PartialEq, Eq)]
pub struct SystemError {
    pub message: String,
}

impl SystemError {
    /// Wraps a message.
    pub fn new(message: &str) -> (r: SystemError)
        ensures
            r.message@ == message@,
    {
        SystemError { message: message.to_owned() }
    }

    /// The wrapped message.
    pub fn message(&self) -> (r: &str)
        ensures
            r@ == self.message@,
    {
        self.message.as_str()
    }
}

/// Runs an operation up to a retry budget, forwarding the first success
/// or the error that exhausted the budget.
pub struct ErrorHandler {
    pub max_retries: u32,
    pub current_retries: u32,
}

impl ErrorHandler {
    /// A handler that will retry up to `max_retries` times.
    pub fn new(max_retries: u32) -> (r: ErrorHandler)
        ensures
            r.max_retries == max_retries,
            r.current_retries == 0,
    {
        ErrorHandler { max_retries, current_retries: 0 }
    }

    /// Calls `operation` until it succeeds or the retry budget is spent.
    /// What comes back is an outcome the operation itself produced — or,
    /// with a zero budget, the handler's own exhaustion error.
    pub fn handle<T, F: Fn() -> Result<T, GpuShareError>>(&mut self, operation: F) -> (r: Result<
        T,
        GpuShareError,
    >)
        requires
            call_requires(operation, ()),
        ensures
            final(self).max_retries == old(self).max_retries,
            final(self).current_retries >= old(self).current_retries,
            match r {
                Ok(v) => call_ensures(operation, (), Ok(v)),
                Err(e) => call_ensures(operation, (), Err(e)) || old(self).current_retries >= old(
                    self,
                ).max_retries,
            },
    {
        if self.current_retries >= self.max_retries {
            return Err(
                GpuShareError::SystemError(String::from_str("Maximum retries reached")),
            );
        }
        while self.current_retries < self.max_retries
            invariant
                call_requires(operation, ()),
                self.max_retries == old(self).max_retries,
                self.current_retries < self.max_retries,
                self.current_retries >= old(self).current_retries,
            decreases self.max_retries - self.current_retries,
        {
            match operation() {
                Ok(result) => {
                    return Ok(result);
                },
                Err(e) => {
                    self.current_retries = self.current_retries + 1;
                    if self.current_retries >= self.max_retries {
                        return Err(e);
                    }
                },
            }
        }
        Err(
            GpuShareError::SystemError(String::from_str("Maximum retries reached")),
        )
    }
}

} // verus!
