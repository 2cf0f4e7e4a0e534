//! The serializable platform tag the API surface reports.

use vstd::prelude::*;

verus! {

/// The host operating system family, as reported over the API.
#[derive(Debug, Clone, Copy, PartialEq, Eq, Structural)]
pub enum Platform {
    Linux,
    MacOS,
    Windows,
    Unknown,
}

} // verus!
