use vstd::prelude::*;

pub mod auth;
pub mod rate_limit;

verus! {

} // verus!
