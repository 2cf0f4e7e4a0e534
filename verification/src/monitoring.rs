use vstd::prelude::*;

pub mod anomaly_detection;
pub mod metrics;

verus! {

} // verus!
