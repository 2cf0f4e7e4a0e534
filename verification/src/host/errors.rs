//! Errors of the container-backend glue around the engine.

use vstd::prelude::*;

pub mod handlers;

verus! {

/// What went wrong while driving the container backend.
#[derive(Debug, Clone, PartialEq, Eq)]
pub enum GpuShareError {
    /// The backend connection could not be made.
    ConnectionError(String),
    /// A container operation failed.
    OperationFailed(String),
    /// A resource request was refused.
    ResourceAllocationError(String),
    /// The configuration is unusable.
    ConfigError(String),
    /// Anything else, with its message.
    UnknownError(String),
}

} // verus!
