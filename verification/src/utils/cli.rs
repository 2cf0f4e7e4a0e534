//! The command set of the command-line surface.
//!
//! The embedding layer parses the command line into these values and
//! calls the engine; parsing itself lives with that layer.

use vstd::prelude::*;

verus! {

/// A parsed invocation.
#[derive(Debug, Clone)]
pub struct Cli {
    pub command: Commands,
}

/// What the caller asked for.
#[derive(Debug, Clone)]
pub enum Commands {
    /// List available GPUs.
    List,
    /// Rent a GPU for a while.
    Rent { gpu_id: u32, user: String, duration: u64 },
    /// Release a GPU.
    Release { gpu_id: u32, user: String },
    /// Show system status.
    Status,
    /// Start the interactive dashboard.
    Dashboard,
}

} // verus!
