use vstd::prelude::*;

pub mod error;
pub mod middleware;
pub mod routes;

verus! {

} // verus!
