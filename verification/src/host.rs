use vstd::prelude::*;

pub mod errors;
pub mod resource_manager;
pub mod vm;

verus! {

} // verus!
