//! Per-VM resource quota checks.

use vstd::prelude::*;
use crate::host::errors::GpuShareError;
use crate::host::vm::VMConfig;

verus! {

/// Checks requested VM resources against the host's limits. The check
/// reads the limits, never changes them.
#[derive(Debug)]
pub struct ResourceManager {
    /// Greatest memory one VM may request, in KB.
    pub max_memory_kb: u64,
    /// Greatest number of vCPUs one VM may request.
    pub max_vcpus: u32,
}

impl ResourceManager {
    /// A manager with the engine's default limits: 32 GB of memory and
    /// 16 vCPUs per VM.
    pub fn new() -> (r: ResourceManager)
        ensures
            r.max_memory_kb == 33554432,
            r.max_vcpus == 16,
    {
        ResourceManager { max_memory_kb: 33554432, max_vcpus: 16 }
    }

    /// Grants the request exactly when it stays within both limits; the
    /// refusal names the resource.
    pub fn check_quota(&self, _user: &str, config: &VMConfig) -> (r: Result<(), GpuShareError>)
        ensures
            r is Ok <==> config.memory_kb <= self.max_memory_kb && config.vcpus <= self.max_vcpus,
            r is Err ==> r->Err_0 is ResourceAllocationError,
    {
        if config.memory_kb > self.max_memory_kb {
            return Err(
                GpuShareError::ResourceAllocationError(
                    String::from_str("Requested memory exceeds the per-VM limit"),
                ),
            );
        }
        if config.vcpus > self.max_vcpus {
            return Err(
                GpuShareError::ResourceAllocationError(
                    String::from_str("Requested vCPUs exceed the per-VM limit"),
                ),
            );
        }
        Ok(())
    }
}

} // verus!
