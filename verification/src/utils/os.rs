//! Host platform detection and capability flags.

use vstd::prelude::*;
use crate::utils::str_eq;

verus! {

/// The host operating system family.
#[derive(Debug, Clone, Copy, PartialEq, Eq, Structural)]
pub enum Platform {
    Linux,
    MacOS,
    Windows,
    Unknown,
}

/// The platform named by an OS identifier string.
pub open spec fn spec_platform_of(s: Seq<char>) -> Platform {
    if s == "linux"@ {
        Platform::Linux
    } else if s == "macos"@ {
        Platform::MacOS
    } else if s == "windows"@ {
        Platform::Windows
    } else {
        Platform::Unknown
    }
}

impl Platform {
    /// Whether the platform supports hardware virtualization. A Linux
    /// host always does here; macOS and Windows do exactly when the
    /// host's own probe — hypervisor framework present, or the platform
    /// hypervisor feature on — said so. The embedding layer performs
    /// that probe and passes its verdict in.
    pub fn supports_hardware_virtualization(&self, hypervisor_probe: bool) -> (r: bool)
        ensures
            r == match *self {
                Platform::Linux => true,
                Platform::MacOS => hypervisor_probe,
                Platform::Windows => hypervisor_probe,
                Platform::Unknown => false,
            },
    {
        match self {
            Platform::Linux => true,
            Platform::MacOS => hypervisor_probe,
            Platform::Windows => hypervisor_probe,
            Platform::Unknown => false,
        }
    }
}

/// Maps the OS identifier the embedding layer read from the build
/// constants to the platform it names.
pub fn current_platform(os_name: &str) -> (r: Platform)
    ensures
        r == spec_platform_of(os_name@),
{
    if str_eq(os_name, "linux") {
        Platform::Linux
    } else if str_eq(os_name, "macos") {
        Platform::MacOS
    } else if str_eq(os_name, "windows") {
        Platform::Windows
    } else {
        Platform::Unknown
    }
}

} // verus!
