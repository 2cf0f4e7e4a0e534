//! The typed error body the API returns.

use vstd::prelude::*;
use crate::api::routes::ErrorNumber;

verus! {

/// An error body: the class and the message.
#[derive(Debug, Clone)]
pub struct ErrorResponse {
    pub code: ErrorNumber,
    pub message: String,
}

impl ErrorResponse {
    /// An error body of the given class and message.
    pub fn new(code: ErrorNumber, message: String) -> (r: ErrorResponse)
        ensures
            r.code == code,
            r.message@ == message@,
    {
        ErrorResponse { code, message }
    }
}

} // verus!
