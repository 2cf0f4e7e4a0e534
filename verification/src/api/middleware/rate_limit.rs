//! Rate-limit settings and the refusal the API returns when a budget is
//! spent; the limiter itself runs in the embedding layer.

use vstd::prelude::*;

verus! {

/// A request budget: so many requests per so many seconds.
#[derive(Debug, Clone, Copy, PartialEq, Eq, Structural)]
pub struct RateLimitConfig {
    pub requests: u32,
    pub per_seconds: u64,
}

/// The refusal returned once a budget is spent.
#[derive(Debug, Clone, Copy, PartialEq, Eq, Structural)]
pub struct RateLimitExceeded;

impl RateLimitExceeded {
    /// The refusal's message.
    pub fn message(&self) -> (r: &'static str)
        ensures
            r@ == "Rate limit exceeded. Please try again later."@,
    {
        "Rate limit exceeded. Please try again later."
    }
}

} // verus!
