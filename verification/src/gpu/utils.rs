//! Small GPU helpers shared by the inventory and the CLI surface.

use vstd::prelude::*;
use crate::utils::str_eq;

verus! {

/// Whether this host build supports isolation-domain queries at all.
/// Always affirmative here; the boot-log check of the orchestrator is
/// what decides whether the hardware has it enabled.
pub fn check_iommu_support() -> (r: Result<bool, crate::errors::GpuShareError>)
    ensures
        r == Ok::<bool, crate::errors::GpuShareError>(true),
{
    Ok(true)
}

/// The marketing name for a PCI vendor identifier.
pub fn get_gpu_vendor_info(vendor_id: &str) -> (r: &'static str)
    ensures
        r@ == (if vendor_id@ == "10de"@ {
            "NVIDIA (uwu)"@
        } else if vendor_id@ == "1002"@ {
            "AMD (owo)"@
        } else if vendor_id@ == "8086"@ {
            "Intel (^_^)"@
        } else {
            "Unknown vendor"@
        }),
{
    if str_eq(vendor_id, "10de") {
        "NVIDIA (uwu)"
    } else if str_eq(vendor_id, "1002") {
        "AMD (owo)"
    } else if str_eq(vendor_id, "8086") {
        "Intel (^_^)"
    } else {
        "Unknown vendor"
    }
}

} // verus!
