//! GPU passthrough and resource allocation engine.
//!
//! The crate shares physical GPUs among isolated compute sandboxes on a
//! single host: it discovers GPUs and their hardware isolation domains,
//! moves a device between the host driver and a passthrough-capable driver,
//! grants exclusive quota-bounded allocations, and samples resource usage
//! with bounded retention.

use vstd::prelude::*;

pub mod api;
pub mod billing;
pub mod cluster;
pub mod config;
pub mod errors;
pub mod gpu;
pub mod host;
pub mod monitoring;
pub mod users;
pub mod utils;

verus! {

} // verus!
