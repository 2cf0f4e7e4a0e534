use vstd::prelude::*;

pub mod device;
pub mod passthrough;
pub mod utils;
pub mod virtual_gpu;

verus! {

} // verus!
