//! Passthrough orchestration: the driver-switch state machine.
//!
//! Moving a device from the host driver to the passthrough-capable driver
//! takes host work — reading the driver link, writing unbind and bind
//! files, reading back the verification state. The embedding layer does
//! that work; this module decides it. Each call returns a [`HostAction`]
//! for the layer to perform, and the layer reports what happened as a
//! [`HostEvent`]. Every transition of a device's session goes through one
//! manager call, so transitions of one device are serialized by the
//! caller holding the manager.
//!
//! Any failure after the host driver was unbound triggers rollback: the
//! next action rebinds the driver recorded before the switch began, so
//! the device is never left half-configured.

use vstd::prelude::*;
use crate::errors::{GpuError, GpuShareError};
use crate::gpu::device::GPUManager;
use crate::gpu::device::GroupMember;
use crate::gpu::device::GroupMemberV;
use crate::gpu::device::eligible_class;
use crate::gpu::virtual_gpu::GPUPool;
use crate::utils::{contains_sub, spec_contains_sub, str_eq, views_of};

verus! {

/// Where a device's journey through the driver switch stands.
#[derive(Debug, Clone, Copy, PartialEq, Eq, Structural)]
pub enum PassthroughState {
    /// Asked for, not yet validated; `prepare` leaves this state behind
    /// by validating the isolation group before it stores a session.
    Requested,
    /// The isolation group was found viable.
    GroupValidated,
    /// The host driver is unbound from the device.
    DriverUnbound,
    /// The passthrough-capable driver is bound.
    AltDriverBound,
    /// Driver, power state and memory region checked out.
    DeviceVerified,
    /// The device is usable inside the sandbox.
    Attached,
    /// A step failed; the original driver is being rebound.
    RollingBack,
    /// Rollback finished: the device is back with its host driver.
    Released,
    /// The switch failed and could not be rolled back cleanly.
    Failed,
}

/// One device's journey through the state machine: its current state and
/// the host driver recorded for rollback.
#[derive(Debug, Clone)]
pub struct PassthroughSession {
    pub device_id: String,
    pub state: PassthroughState,
    pub original_driver: Option<String>,
}

/// Mathematical image of a [`PassthroughSession`].
#[verifier::ext_equal]
pub ghost struct SessionV {
    pub device_id: Seq<char>,
    pub state: PassthroughState,
    pub original_driver: Option<Seq<char>>,
}

impl View for PassthroughSession {
    type V = SessionV;

    open spec fn view(&self) -> SessionV {
        SessionV {
            device_id: self.device_id@,
            state: self.state,
            original_driver: match self.original_driver {
                Some(d) => Some(d@),
                None => None,
            },
        }
    }
}

/// What the embedding layer must do next for a session.
#[derive(Debug, Clone)]
pub enum HostAction {
    /// Read the device's current driver link.
    ReadDriver,
    /// Write the device id to this driver's unbind file.
    UnbindDriver(String),
    /// Bind the passthrough-capable driver to the device.
    BindAltDriver,
    /// Read back driver link, power state and resource listing.
    VerifyDevice,
    /// Hand the device to the sandbox's own device configuration.
    CompleteAttach,
    /// Bind this recorded host driver back to the device.
    RebindOriginal(String),
    /// Nothing is left to do for this session.
    Finished,
}

/// Mathematical image of a [`HostAction`].
#[verifier::ext_equal]
pub ghost enum ActionV {
    ReadDriver,
    UnbindDriver(Seq<char>),
    BindAltDriver,
    VerifyDevice,
    CompleteAttach,
    RebindOriginal(Seq<char>),
    Finished,
}

impl View for HostAction {
    type V = ActionV;

    open spec fn view(&self) -> ActionV {
        match self {
            HostAction::ReadDriver => ActionV::ReadDriver,
            HostAction::UnbindDriver(d) => ActionV::UnbindDriver(d@),
            HostAction::BindAltDriver => ActionV::BindAltDriver,
            HostAction::VerifyDevice => ActionV::VerifyDevice,
            HostAction::CompleteAttach => ActionV::CompleteAttach,
            HostAction::RebindOriginal(d) => ActionV::RebindOriginal(d@),
            HostAction::Finished => ActionV::Finished,
        }
    }
}

/// What the embedding layer observed when it performed the last action.
#[derive(Debug, Clone)]
pub enum HostEvent {
    /// The device's current driver link resolved to this name.
    DriverRead(String),
    /// The unbind write went through.
    UnbindOk,
    /// The bind write went through.
    BindOk,
    /// What verification read back from the device.
    Verified { driver: String, power_state: String, has_memory_bar: bool },
    /// The sandbox accepted the device.
    AttachOk,
    /// The last action failed, with the host's words.
    StepFailed(String),
    /// The original driver is bound again.
    RebindOk,
    /// Rebinding the original driver failed, with the host's words.
    RebindFailed(String),
}

/// Mathematical image of a [`HostEvent`].
#[verifier::ext_equal]
pub ghost enum EventV {
    DriverRead(Seq<char>),
    UnbindOk,
    BindOk,
    Verified { driver: Seq<char>, power_state: Seq<char>, has_memory_bar: bool },
    AttachOk,
    StepFailed(Seq<char>),
    RebindOk,
    RebindFailed(Seq<char>),
}

impl View for HostEvent {
    type V = EventV;

    open spec fn view(&self) -> EventV {
        match self {
            HostEvent::DriverRead(d) => EventV::DriverRead(d@),
            HostEvent::UnbindOk => EventV::UnbindOk,
            HostEvent::BindOk => EventV::BindOk,
            HostEvent::Verified { driver, power_state, has_memory_bar } => EventV::Verified {
                driver: driver@,
                power_state: power_state@,
                has_memory_bar: *has_memory_bar,
            },
            HostEvent::AttachOk => EventV::AttachOk,
            HostEvent::StepFailed(m) => EventV::StepFailed(m@),
            HostEvent::RebindOk => EventV::RebindOk,
            HostEvent::RebindFailed(m) => EventV::RebindFailed(m@),
        }
    }
}

/// Verification succeeds exactly when the passthrough driver is the one
/// bound, the device is in the active power state, and a valid
/// memory-mapped region is present.
pub open spec fn verification_passes(
    driver: Seq<char>,
    power_state: Seq<char>,
    has_memory_bar: bool,
) -> bool {
    driver == "vfio-pci"@ && power_state == "D0"@ && has_memory_bar
}

/// A session in this state needs no further transitions.
pub open spec fn spec_terminal(s: PassthroughState) -> bool {
    s == PassthroughState::Released || s == PassthroughState::Failed
}

/// Entering rollback: rebind the recorded host driver; when none was ever
/// recorded, nothing on the host was touched and the session just fails.
pub open spec fn spec_rollback(s: SessionV) -> (SessionV, ActionV) {
    match s.original_driver {
        Some(d) => (SessionV { state: PassthroughState::RollingBack, ..s }, ActionV::RebindOriginal(d)),
        None => (SessionV { state: PassthroughState::Failed, ..s }, ActionV::Finished),
    }
}

/// The whole transition relation of one session: from the session and the
/// event the embedding layer reports, the successor session and the next
/// host action. Any failure after the unbind rolls back; an event that
/// does not belong to the state changes nothing.
pub open spec fn spec_step(s: SessionV, e: EventV) -> (SessionV, ActionV) {
    match s.state {
        PassthroughState::GroupValidated => match e {
            EventV::DriverRead(d) => (
                SessionV { original_driver: Some(d), ..s },
                ActionV::UnbindDriver(d),
            ),
            EventV::UnbindOk => (
                SessionV { state: PassthroughState::DriverUnbound, ..s },
                ActionV::BindAltDriver,
            ),
            EventV::StepFailed(_) => (
                SessionV { state: PassthroughState::Failed, ..s },
                ActionV::Finished,
            ),
            _ => (s, ActionV::Finished),
        },
        PassthroughState::DriverUnbound => match e {
            EventV::BindOk => (
                SessionV { state: PassthroughState::AltDriverBound, ..s },
                ActionV::VerifyDevice,
            ),
            EventV::StepFailed(_) => spec_rollback(s),
            _ => (s, ActionV::Finished),
        },
        PassthroughState::AltDriverBound => match e {
            EventV::Verified { driver, power_state, has_memory_bar } => {
                if verification_passes(driver, power_state, has_memory_bar) {
                    (
                        SessionV { state: PassthroughState::DeviceVerified, ..s },
                        ActionV::CompleteAttach,
                    )
                } else {
                    spec_rollback(s)
                }
            },
            EventV::StepFailed(_) => spec_rollback(s),
            _ => (s, ActionV::Finished),
        },
        PassthroughState::DeviceVerified => match e {
            EventV::AttachOk => (
                SessionV { state: PassthroughState::Attached, ..s },
                ActionV::Finished,
            ),
            EventV::StepFailed(_) => spec_rollback(s),
            _ => (s, ActionV::Finished),
        },
        PassthroughState::RollingBack => match e {
            EventV::RebindOk => (
                SessionV { state: PassthroughState::Released, ..s },
                ActionV::Finished,
            ),
            EventV::RebindFailed(_) => (
                SessionV { state: PassthroughState::Failed, ..s },
                ActionV::Finished,
            ),
            _ => (s, ActionV::Finished),
        },
        _ => (s, ActionV::Finished),
    }
}

/// The views of a vector of sessions.
pub open spec fn sessions_view(s: Seq<PassthroughSession>) -> Seq<SessionV> {
    s.map_values(|t: PassthroughSession| t@)
}

/// Whether a session for device `id` exists.
pub open spec fn has_session(ss: Seq<SessionV>, id: Seq<char>) -> bool {
    exists|i: int| 0 <= i < ss.len() && (#[trigger] ss[i]).device_id == id
}

/// The index of the session for device `id` (unique when sessions are
/// well formed).
pub open spec fn session_idx(ss: Seq<SessionV>, id: Seq<char>) -> int {
    choose|i: int| 0 <= i < ss.len() && (#[trigger] ss[i]).device_id == id
}

/// Each device has at most one session: its transitions are serialized.
pub open spec fn wf_sessions(ss: Seq<SessionV>) -> bool {
    forall|i: int, j: int|
        0 <= i < j < ss.len() ==> (#[trigger] ss[i]).device_id != (#[trigger] ss[j]).device_id
}

/// A copy of `s` in state `st`.
fn session_with_state(s: &PassthroughSession, st: PassthroughState) -> (r: PassthroughSession)
    ensures
        r@ == (SessionV { state: st, ..s@ }),
{
    PassthroughSession {
        device_id: s.device_id.clone(),
        state: st,
        original_driver: match &s.original_driver {
            Some(d) => Some(d.clone()),
            None => None,
        },
    }
}

/// Executes [`spec_rollback`] on a session value.
fn begin_rollback(s: &PassthroughSession) -> (r: (PassthroughSession, HostAction))
    ensures
        (r.0@, r.1@) == spec_rollback(s@),
{
    match &s.original_driver {
        Some(d) => {
            let act = HostAction::RebindOriginal(d.clone());
            (session_with_state(s, PassthroughState::RollingBack), act)
        },
        None => (session_with_state(s, PassthroughState::Failed), HostAction::Finished),
    }
}

/// One transition of the state machine: the successor session and the
/// next host action, exactly as [`spec_step`] says.
pub fn step(session: &PassthroughSession, event: &HostEvent) -> (r: (
    PassthroughSession,
    HostAction,
))
    ensures
        (r.0@, r.1@) == spec_step(session@, event@),
{
    match session.state {
        PassthroughState::GroupValidated => match event {
            HostEvent::DriverRead(d) => {
                let s2 = PassthroughSession {
                    device_id: session.device_id.clone(),
                    state: session.state,
                    original_driver: Some(d.clone()),
                };
                (s2, HostAction::UnbindDriver(d.clone()))
            },
            HostEvent::UnbindOk => (
                session_with_state(session, PassthroughState::DriverUnbound),
                HostAction::BindAltDriver,
            ),
            HostEvent::StepFailed(_) => (
                session_with_state(session, PassthroughState::Failed),
                HostAction::Finished,
            ),
            _ => (session_with_state(session, session.state), HostAction::Finished),
        },
        PassthroughState::DriverUnbound => match event {
            HostEvent::BindOk => (
                session_with_state(session, PassthroughState::AltDriverBound),
                HostAction::VerifyDevice,
            ),
            HostEvent::StepFailed(_) => begin_rollback(session),
            _ => (session_with_state(session, session.state), HostAction::Finished),
        },
        PassthroughState::AltDriverBound => match event {
            HostEvent::Verified { driver, power_state, has_memory_bar } => {
                let passes = str_eq(driver.as_str(), "vfio-pci")
                    && str_eq(power_state.as_str(), "D0") && *has_memory_bar;
                if passes {
                    (
                        session_with_state(session, PassthroughState::DeviceVerified),
                        HostAction::CompleteAttach,
                    )
                } else {
                    begin_rollback(session)
                }
            },
            HostEvent::StepFailed(_) => begin_rollback(session),
            _ => (session_with_state(session, session.state), HostAction::Finished),
        },
        PassthroughState::DeviceVerified => match event {
            HostEvent::AttachOk => (
                session_with_state(session, PassthroughState::Attached),
                HostAction::Finished,
            ),
            HostEvent::StepFailed(_) => begin_rollback(session),
            _ => (session_with_state(session, session.state), HostAction::Finished),
        },
        PassthroughState::RollingBack => match event {
            HostEvent::RebindOk => (
                session_with_state(session, PassthroughState::Released),
                HostAction::Finished,
            ),
            HostEvent::RebindFailed(_) => (
                session_with_state(session, PassthroughState::Failed),
                HostAction::Finished,
            ),
            _ => (session_with_state(session, session.state), HostAction::Finished),
        },
        _ => (session_with_state(session, session.state), HostAction::Finished),
    }
}

/// Whether some line of `lines` has `pat` inside it.
pub open spec fn any_line_contains(lines: Seq<Seq<char>>, pat: Seq<char>) -> bool {
    exists|i: int| 0 <= i < lines.len() && spec_contains_sub(#[trigger] lines[i], pat)
}

/// Whether a device's resource listing shows a valid memory-mapped
/// region: some line of it reads `Memory at`. The embedding layer hands
/// the listing's text in.
pub fn memory_bar_present(listing: &str) -> (r: bool)
    ensures
        r == any_line_contains(crate::utils::spec_split(listing@, '\n'), "Memory at"@),
{
    let lines = crate::utils::split_char(listing, '\n');
    let ghost lv = crate::utils::views_of(lines@);
    let n = lines.len();
    let mut i: usize = 0;
    while i < n
        invariant
            n == lines@.len(),
            lv == crate::utils::views_of(lines@),
            lv == crate::utils::spec_split(listing@, '\n'),
            i <= n,
            forall|k: int| 0 <= k < i ==> !spec_contains_sub(#[trigger] lv[k], "Memory at"@),
        decreases n - i,
    {
        proof {
            assert(lv[i as int] == lines@[i as int]@);
        }
        if contains_sub(lines[i].as_str(), "Memory at") {
            proof {
                assert(spec_contains_sub(lv[i as int], "Memory at"@));
            }
            return true;
        }
        i = i + 1;
    }
    false
}

/// Orchestrates passthrough sessions. It decides; the embedding layer
/// performs each returned action on the host and reports the outcome.
#[derive(Debug)]
pub struct PassthroughManager {
    pub sessions: Vec<PassthroughSession>,
    pub iommu_enabled: bool,
}

/// Whether the boot log shows hardware isolation support: the host
/// reported its isolation unit, of either platform vendor, as enabled.
pub fn check_iommu_support(boot_log: &str) -> (r: bool)
    ensures
        r == (spec_contains_sub(boot_log@, "IOMMU enabled"@) || spec_contains_sub(
            boot_log@,
            "AMD-Vi enabled"@,
        )),
{
    contains_sub(boot_log, "IOMMU enabled") || contains_sub(boot_log, "AMD-Vi enabled")
}

impl PassthroughManager {
    /// Sessions are per-device: every device has at most one.
    pub open spec fn wf(&self) -> bool {
        wf_sessions(sessions_view(self.sessions@))
    }

    /// A manager with no sessions. Refused when the host reports no
    /// hardware isolation support: without it no group can isolate the
    /// device, so no passthrough is prepared at all.
    pub fn new(iommu_enabled: bool) -> (r: Result<PassthroughManager, GpuShareError>)
        ensures
            match r {
                Ok(m) => iommu_enabled && m.wf() && m.iommu_enabled && m.sessions@.len() == 0,
                Err(GpuShareError::GpuError(GpuError::IommuError { group_id, .. })) =>
                    !iommu_enabled && group_id is None,
                _ => false,
            },
    {
        if !iommu_enabled {
            return Err(
                GpuShareError::GpuError(
                    GpuError::IommuError {
                        message: String::from_str("IOMMU not enabled in system"),
                        group_id: None,
                    },
                ),
            );
        }
        Ok(PassthroughManager { sessions: Vec::new(), iommu_enabled: true })
    }

    /// Index of the session for `gpu_id`, if any.
    fn find_session(&self, gpu_id: &str) -> (r: Option<usize>)
        requires
            self.wf(),
        ensures
            match r {
                Some(i) => i < self.sessions@.len() && self.sessions@[i as int]@.device_id
                    == gpu_id@ && i as int == session_idx(sessions_view(self.sessions@), gpu_id@)
                    && has_session(sessions_view(self.sessions@), gpu_id@),
                None => !has_session(sessions_view(self.sessions@), gpu_id@),
            },
    {
        let ghost ss = sessions_view(self.sessions@);
        let n = self.sessions.len();
        let mut i: usize = 0;
        while i < n
            invariant
                n == self.sessions@.len(),
                i <= n,
                ss == sessions_view(self.sessions@),
                wf_sessions(ss),
                forall|k: int| 0 <= k < i ==> (#[trigger] ss[k]).device_id != gpu_id@,
            decreases n - i,
        {
            if str_eq(self.sessions[i].device_id.as_str(), gpu_id) {
                proof {
                    assert(ss[i as int].device_id == gpu_id@);
                    let c = session_idx(ss, gpu_id@);
                    assert(0 <= c < ss.len() && ss[c].device_id == gpu_id@);
                    if c != i as int {
                        assert(false);
                    }
                }
                return Some(i);
            }
            proof {
                assert(ss[i as int] == self.sessions@[i as int]@);
            }
            i = i + 1;
        }
        proof {
            if has_session(ss, gpu_id@) {
                let c = session_idx(ss, gpu_id@);
                assert(0 <= c < ss.len() && ss[c].device_id == gpu_id@);
                assert(false);
            }
        }
        None
    }

    /// Starts a passthrough session for `gpu_id`. The caller must hold an
    /// allocation: the pool must show the device `pool_device` granted to
    /// `owner`, else `NotAllocated`. The device's isolation group must be
    /// viable, else `IommuError` names it. On success the session stands
    /// validated and the first host action is to read the current driver,
    /// which rollback will restore.
    pub fn prepare_gpu_passthrough(
        &mut self,
        gpu_id: &str,
        owner: &str,
        pool: &GPUPool,
        pool_device: u32,
        inventory: &GPUManager,
    ) -> (r: Result<HostAction, GpuShareError>)
        requires
            old(self).wf(),
            pool.wf(),
            crate::gpu::device::groups_wf(
                crate::gpu::device::groups_view(inventory.iommu_groups@),
            ),
        ensures
            final(self).wf(),
            final(self).iommu_enabled == old(self).iommu_enabled,
            ({
                let ss = sessions_view(old(self).sessions@);
                let sp = crate::gpu::virtual_gpu::pool_view(pool.gpus@);
                match r {
                    Ok(action) => {
                        &&& action is ReadDriver
                        &&& !has_session(ss, gpu_id@)
                        &&& crate::gpu::virtual_gpu::has_gpu(sp, pool_device)
                        &&& crate::gpu::virtual_gpu::owned_by(
                            sp[crate::gpu::virtual_gpu::idx_of(sp, pool_device)],
                            owner@,
                        )
                        &&& exists|i: int|
                            0 <= i < inventory.devices@.len()
                                && (#[trigger] inventory.devices@[i])@.id == gpu_id@
                                && inventory.spec_passthrough_safe(i)
                        &&& sessions_view(final(self).sessions@) == ss.push(
                            SessionV {
                                device_id: gpu_id@,
                                state: PassthroughState::GroupValidated,
                                original_driver: None,
                            },
                        )
                    },
                    Err(GpuShareError::GpuError(e)) => {
                        &&& final(self).sessions@ == old(self).sessions@
                        &&& match e {
                            GpuError::AlreadyInUse { .. } => has_session(ss, gpu_id@),
                            GpuError::NotAllocated { .. } => !has_session(ss, gpu_id@) && !(
                            crate::gpu::virtual_gpu::has_gpu(sp, pool_device)
                                && crate::gpu::virtual_gpu::owned_by(
                                sp[crate::gpu::virtual_gpu::idx_of(sp, pool_device)],
                                owner@,
                            )),
                            GpuError::NotFound { .. } => !has_session(ss, gpu_id@) && forall|
                                k: int,
                            |
                                0 <= k < inventory.devices@.len() ==> (
                                #[trigger] inventory.devices@[k])@.id != gpu_id@,
                            GpuError::IommuError { .. } => !has_session(ss, gpu_id@) && exists|
                                i: int,
                            |
                                0 <= i < inventory.devices@.len()
                                    && (#[trigger] inventory.devices@[i])@.id == gpu_id@
                                    && !inventory.spec_passthrough_safe(i),
                            _ => false,
                        }
                    },
                    _ => false,
                }
            }),
    {
        let ghost ss = sessions_view(self.sessions@);
        if let Some(_) = self.find_session(gpu_id) {
            return Err(
                GpuShareError::GpuError(
                    GpuError::AlreadyInUse { gpu_id: gpu_id.to_owned(), vm_id: None },
                ),
            );
        }
        if !pool.is_allocated_to(pool_device, owner) {
            return Err(
                GpuShareError::GpuError(GpuError::NotAllocated { gpu_id: gpu_id.to_owned() }),
            );
        }
        match inventory.attach_gpu(owner, gpu_id) {
            Ok(()) => {},
            Err(crate::gpu::device::GPUError::NotFound) => {
                return Err(
                    GpuShareError::GpuError(GpuError::NotFound { gpu_id: gpu_id.to_owned() }),
                );
            },
            Err(crate::gpu::device::GPUError::UnsafeIommuGroup(which)) => {
                return Err(
                    GpuShareError::GpuError(GpuError::IommuError { message: which, group_id: None }),
                );
            },
            Err(_) => {
                return Err(
                    GpuShareError::GpuError(GpuError::NotFound { gpu_id: gpu_id.to_owned() }),
                );
            },
        }
        let session = PassthroughSession {
            device_id: gpu_id.to_owned(),
            state: PassthroughState::GroupValidated,
            original_driver: None,
        };
        self.sessions.push(session);
        proof {
            assert(sessions_view(self.sessions@) =~= ss.push(
                SessionV {
                    device_id: gpu_id@,
                    state: PassthroughState::GroupValidated,
                    original_driver: None,
                },
            ));
            assert forall|i: int, j: int|
                0 <= i < j < sessions_view(self.sessions@).len() implies (
            #[trigger] sessions_view(self.sessions@)[i]).device_id != (#[trigger] sessions_view(
                self.sessions@,
            )[j]).device_id by {
                if j == ss.len() {
                    if sessions_view(self.sessions@)[i].device_id == gpu_id@ {
                        assert(ss[i].device_id == gpu_id@);
                        assert(has_session(ss, gpu_id@));
                    }
                }
            }
        }
        Ok(HostAction::ReadDriver)
    }

    /// Feeds one host observation into the session of `gpu_id` and hands
    /// back the next action, exactly as the transition relation says; a
    /// session whose state becomes terminal is discarded.
    pub fn advance(&mut self, gpu_id: &str, event: &HostEvent) -> (r: Result<
        HostAction,
        GpuShareError,
    >)
        requires
            old(self).wf(),
        ensures
            final(self).wf(),
            final(self).iommu_enabled == old(self).iommu_enabled,
            ({
                let ss = sessions_view(old(self).sessions@);
                match r {
                    Ok(action) => has_session(ss, gpu_id@) && ({
                        let i = session_idx(ss, gpu_id@);
                        let stepped = spec_step(ss[i], event@);
                        &&& action@ == stepped.1
                        &&& sessions_view(final(self).sessions@) == if spec_terminal(
                            stepped.0.state,
                        ) {
                            ss.remove(i)
                        } else {
                            ss.update(i, stepped.0)
                        }
                    }),
                    Err(GpuShareError::GpuError(GpuError::NotFound { .. })) => !has_session(
                        ss,
                        gpu_id@,
                    ) && final(self).sessions@ == old(self).sessions@,
                    _ => false,
                }
            }),
    {
        let ghost ss = sessions_view(self.sessions@);
        let i = match self.find_session(gpu_id) {
            Some(i) => i,
            None => {
                return Err(
                    GpuShareError::GpuError(GpuError::NotFound { gpu_id: gpu_id.to_owned() }),
                );
            },
        };
        let (next, action) = step(&self.sessions[i], event);
        proof {
            lemma_step_keeps_device(ss[i as int], event@);
        }
        let terminal = match next.state {
            PassthroughState::Released => true,
            PassthroughState::Failed => true,
            _ => false,
        };
        if terminal {
            self.sessions.remove(i);
            proof {
                assert(sessions_view(self.sessions@) =~= ss.remove(i as int));
                assert forall|a: int, b: int|
                    0 <= a < b < sessions_view(self.sessions@).len() implies (
                #[trigger] sessions_view(self.sessions@)[a]).device_id != (
                #[trigger] sessions_view(self.sessions@)[b]).device_id by {
                    let sv = sessions_view(self.sessions@);
                    assert(sv[a] == if a < i as int {
                        ss[a]
                    } else {
                        ss[a + 1]
                    });
                    assert(sv[b] == if b < i as int {
                        ss[b]
                    } else {
                        ss[b + 1]
                    });
                }
            }
        } else {
            self.sessions.set(i, next);
            proof {
                assert(sessions_view(self.sessions@) =~= ss.update(
                    i as int,
                    spec_step(ss[i as int], event@).0,
                ));
            }
        }
        Ok(action)
    }

    /// Reverses the bind for `gpu_id`: the session enters rollback and
    /// the next action rebinds the recorded host driver. Idempotent: with
    /// no session — never prepared, or already detached — there is
    /// nothing to do; a session that never recorded a driver is simply
    /// discarded.
    pub fn detach(&mut self, gpu_id: &str) -> (r: Result<HostAction, GpuShareError>)
        requires
            old(self).wf(),
        ensures
            final(self).wf(),
            final(self).iommu_enabled == old(self).iommu_enabled,
            r is Ok,
            ({
                let ss = sessions_view(old(self).sessions@);
                let action = r->Ok_0;
                if !has_session(ss, gpu_id@) {
                    action@ == ActionV::Finished && final(self).sessions@ == old(self).sessions@
                } else {
                    let i = session_idx(ss, gpu_id@);
                    match ss[i].original_driver {
                        Some(d) => action@ == ActionV::RebindOriginal(d) && sessions_view(
                            final(self).sessions@,
                        ) == ss.update(
                            i,
                            SessionV { state: PassthroughState::RollingBack, ..ss[i] },
                        ),
                        None => action@ == ActionV::Finished && sessions_view(
                            final(self).sessions@,
                        ) == ss.remove(i),
                    }
                }
            }),
    {
        let ghost ss = sessions_view(self.sessions@);
        let i = match self.find_session(gpu_id) {
            Some(i) => i,
            None => {
                return Ok(HostAction::Finished);
            },
        };
        match &self.sessions[i].original_driver {
            Some(_) => {
                let next = session_with_state(&self.sessions[i], PassthroughState::RollingBack);
                let action = match &self.sessions[i].original_driver {
                    Some(d) => HostAction::RebindOriginal(d.clone()),
                    None => HostAction::Finished,
                };
                self.sessions.set(i, next);
                proof {
                    assert(sessions_view(self.sessions@) =~= ss.update(
                        i as int,
                        SessionV { state: PassthroughState::RollingBack, ..ss[i as int] },
                    ));
                }
                Ok(action)
            },
            None => {
                self.sessions.remove(i);
                proof {
                    assert(sessions_view(self.sessions@) =~= ss.remove(i as int));
                    assert forall|a: int, b: int|
                        0 <= a < b < sessions_view(self.sessions@).len() implies (
                    #[trigger] sessions_view(self.sessions@)[a]).device_id != (
                    #[trigger] sessions_view(self.sessions@)[b]).device_id by {
                        let sv = sessions_view(self.sessions@);
                        assert(sv[a] == if a < i as int {
                            ss[a]
                        } else {
                            ss[a + 1]
                        });
                        assert(sv[b] == if b < i as int {
                            ss[b]
                        } else {
                            ss[b + 1]
                        });
                    }
                }
                Ok(HostAction::Finished)
            },
        }
    }
}

/// A transition never renames the device a session is about.
proof fn lemma_step_keeps_device(s: SessionV, e: EventV)
    ensures
        spec_step(s, e).0.device_id == s.device_id,
{
}

/// Rollback correctness: when the step after verification fails, the
/// session enters rollback and the very next action rebinds exactly the
/// driver recorded before the switch began; a successful rebind releases
/// the session. The orchestrator holds the allocation pool only by
/// shared reference, so no allocation record changes on this path.
pub proof fn lemma_rollback_restores_driver(s: SessionV, reason: Seq<char>, d: Seq<char>)
    requires
        s.state == PassthroughState::DeviceVerified,
        s.original_driver == Some(d),
    ensures
        spec_step(s, EventV::StepFailed(reason)).1 == ActionV::RebindOriginal(d),
        spec_step(s, EventV::StepFailed(reason)).0.state == PassthroughState::RollingBack,
        spec_step(
            spec_step(s, EventV::StepFailed(reason)).0,
            EventV::RebindOk,
        ).0.state == PassthroughState::Released,
{
}

/// A failed verification rolls back the same way: the recorded driver is
/// what gets rebound.
pub proof fn lemma_failed_verification_rolls_back(
    s: SessionV,
    driver: Seq<char>,
    power_state: Seq<char>,
    has_memory_bar: bool,
    d: Seq<char>,
)
    requires
        s.state == PassthroughState::AltDriverBound,
        s.original_driver == Some(d),
        !verification_passes(driver, power_state, has_memory_bar),
    ensures
        spec_step(
            s,
            EventV::Verified { driver, power_state, has_memory_bar },
        ).1 == ActionV::RebindOriginal(d),
        spec_step(
            s,
            EventV::Verified { driver, power_state, has_memory_bar },
        ).0.state == PassthroughState::RollingBack,
{
}

/// A group of devices destined for the alternate driver.
#[derive(Debug, Clone)]
pub struct VfioGroup {
    pub group_id: u64,
    pub devices: Vec<String>,
}

/// The class of the first entry for address `a`, when one is listed.
pub open spec fn lookup_class(cs: Seq<GroupMemberV>, a: Seq<char>) -> Option<u32>
    decreases cs.len(),
{
    if cs.len() == 0 {
        None
    } else if cs[0].address == a {
        Some(cs[0].class_code)
    } else {
        lookup_class(cs.skip(1), a)
    }
}

proof fn lemma_lookup_skip(cs: Seq<GroupMemberV>, a: Seq<char>, i: int)
    requires
        0 <= i <= cs.len(),
        forall|k: int| 0 <= k < i ==> (#[trigger] cs[k]).address != a,
    ensures
        lookup_class(cs, a) == lookup_class(cs.skip(i), a),
    decreases i,
{
    if i > 0 {
        assert(cs[0].address != a);
        let t = cs.skip(1);
        assert forall|k: int| 0 <= k < i - 1 implies (#[trigger] t[k]).address != a by {
            assert(t[k] == cs[k + 1]);
        }
        lemma_lookup_skip(t, a, i - 1);
        assert(t.skip(i - 1) =~= cs.skip(i));
    } else {
        assert(cs.skip(0) =~= cs);
    }
}

/// First listed class for address `a`.
fn find_class(classes: &Vec<GroupMember>, a: &str) -> (r: Option<u32>)
    ensures
        r == lookup_class(classes@.map_values(|m: GroupMember| m@), a@),
{
    let ghost cs = classes@.map_values(|m: GroupMember| m@);
    let n = classes.len();
    let mut i: usize = 0;
    while i < n
        invariant
            n == classes@.len(),
            i <= n,
            cs == classes@.map_values(|m: GroupMember| m@),
            forall|k: int| 0 <= k < i ==> (#[trigger] cs[k]).address != a@,
        decreases n - i,
    {
        if str_eq(classes[i].address.as_str(), a) {
            proof {
                lemma_lookup_skip(cs, a@, i as int);
                assert(cs.skip(i as int)[0] == cs[i as int]);
            }
            return Some(classes[i].class_code);
        }
        proof {
            assert(cs[i as int] == classes@[i as int]@);
        }
        i = i + 1;
    }
    proof {
        lemma_lookup_skip(cs, a@, n as int);
        assert(cs.skip(n as int).len() == 0);
    }
    None
}

impl VfioGroup {
    /// An empty group for isolation domain `group_id`.
    pub fn new(group_id: u64) -> (r: Result<VfioGroup, GpuShareError>)
        ensures
            match r {
                Ok(g) => g.group_id == group_id && g.devices@.len() == 0,
                Err(_) => false,
            },
    {
        Ok(VfioGroup { group_id, devices: Vec::new() })
    }

    /// Adds a device to the group; a device already listed stays listed
    /// once.
    pub fn add_device(&mut self, device_id: String) -> (r: Result<(), GpuShareError>)
        ensures
            r is Ok,
            views_of(final(self).devices@) == if exists|k: int|
                0 <= k < views_of(old(self).devices@).len() && views_of(old(self).devices@)[k]
                    == device_id@ {
                views_of(old(self).devices@)
            } else {
                views_of(old(self).devices@).push(device_id@)
            },
            final(self).group_id == old(self).group_id,
    {
        let ghost dv = views_of(self.devices@);
        let n = self.devices.len();
        let mut i: usize = 0;
        while i < n
            invariant
                n == self.devices@.len(),
                dv == views_of(self.devices@),
                i <= n,
                forall|k: int| 0 <= k < i ==> views_of(self.devices@)[k] != device_id@,
            decreases n - i,
        {
            if str_eq(self.devices[i].as_str(), device_id.as_str()) {
                proof {
                    assert(views_of(self.devices@)[i as int] == device_id@);
                }
                return Ok(());
            }
            proof {
                assert(views_of(self.devices@)[i as int] == self.devices@[i as int]@);
            }
            i = i + 1;
        }
        proof {
            if exists|k: int| 0 <= k < dv.len() && dv[k] == device_id@ {
                let k = choose|k: int| 0 <= k < dv.len() && dv[k] == device_id@;
                assert(false);
            }
        }
        self.devices.push(device_id);
        proof {
            assert(views_of(self.devices@) =~= dv.push(self.devices@[n as int]@));
        }
        Ok(())
    }

    /// Whether every device of the group may be passed through, judged by
    /// the class listing `classes`: all members must be display or audio
    /// functions. A member with no listed class is an error.
    pub fn is_viable(&self, classes: &Vec<GroupMember>) -> (r: Result<bool, GpuShareError>)
        ensures
            ({
                let dv = views_of(self.devices@);
                let cs = classes@.map_values(|m: GroupMember| m@);
                match r {
                    Ok(b) => {
                        &&& forall|k: int|
                            0 <= k < dv.len() ==> lookup_class(cs, #[trigger] dv[k]) is Some
                        &&& b == forall|k: int|
                            0 <= k < dv.len() ==> eligible_class(
                                lookup_class(cs, #[trigger] dv[k])->0,
                            )
                    },
                    Err(_) => exists|k: int|
                        0 <= k < dv.len() && lookup_class(cs, #[trigger] dv[k]) is None,
                }
            }),
    {
        let ghost dv = views_of(self.devices@);
        let ghost cs = classes@.map_values(|m: GroupMember| m@);
        let n = self.devices.len();
        let mut viable = true;
        let mut i: usize = 0;
        while i < n
            invariant
                n == self.devices@.len(),
                dv == views_of(self.devices@),
                cs == classes@.map_values(|m: GroupMember| m@),
                i <= n,
                forall|k: int| 0 <= k < i ==> lookup_class(cs, #[trigger] dv[k]) is Some,
                viable == forall|k: int|
                    0 <= k < i ==> eligible_class(lookup_class(cs, #[trigger] dv[k])->0),
            decreases n - i,
        {
            proof {
                assert(dv[i as int] == self.devices@[i as int]@);
            }
            let c = match find_class(classes, self.devices[i].as_str()) {
                Some(c) => c,
                None => {
                    return Err(
                        GpuShareError::SystemError(
                            String::from_str("Failed to read device class"),
                        ),
                    );
                },
            };
            let base = c / 65536;
            let sub = (c / 256) % 256;
            let ok = base == 3 || (base == 4 && (sub == 1 || sub == 3));
            proof {
                assert(ok == eligible_class(c));
            }
            viable = viable && ok;
            i = i + 1;
        }
        Ok(viable)
    }
}

/// Safety switches for the passthrough path; the cautious choices are the
/// defaults.
#[derive(Debug, Clone)]
pub struct PassthroughConfig {
    pub enable_unsafe_interrupts: bool,
    pub enable_acs_override: bool,
    pub enable_power_management: bool,
}

impl Default for PassthroughConfig {
    /// Interrupt remapping and isolation overrides stay off; power
    /// management stays on.
    fn default() -> (r: PassthroughConfig)
        ensures
            !r.enable_unsafe_interrupts,
            !r.enable_acs_override,
            r.enable_power_management,
    {
        PassthroughConfig {
            enable_unsafe_interrupts: false,
            enable_acs_override: false,
            enable_power_management: true,
        }
    }
}

} // verus!
