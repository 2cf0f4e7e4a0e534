//! Inventory and isolation grouping.
//!
//! A scan of the host hands this module one plain [`ScanEntry`] per
//! candidate device; the embedding layer reads them from the host device
//! tree. The manager filters the candidates down to GPUs of known vendors
//! and groups every scanned device by its hardware isolation domain. A
//! group is viable for passthrough exactly when every member is a display
//! or audio function, so that no unrelated device would be exposed.

use vstd::prelude::*;
use crate::utils::{spec_trim, str_eq, trim_str};

verus! {

/// Identifies the device a sandbox wants passed through, by bus address
/// and isolation group.
#[derive(Debug, Clone)]
pub struct GPUConfig {
    pub gpu_id: String,
    pub iommu_group: u64,
}

/// A GPU of the inventory: identity, capacity and capability flags.
#[derive(Debug, Clone)]
pub struct GPUInfo {
    pub id: String,
    pub vendor: String,
    pub model: String,
    pub vram_mb: u64,
    pub driver_version: String,
    pub metal_support: Option<bool>,
    pub vulkan_support: Option<bool>,
    pub directx_major: Option<u32>,
    pub iommu_group: Option<u64>,
}

/// Mathematical image of a [`GPUInfo`].
#[verifier::ext_equal]
pub ghost struct GpuInfoV {
    pub id: Seq<char>,
    pub vendor: Seq<char>,
    pub model: Seq<char>,
    pub vram_mb: u64,
    pub driver_version: Seq<char>,
    pub metal_support: Option<bool>,
    pub vulkan_support: Option<bool>,
    pub directx_major: Option<u32>,
    pub iommu_group: Option<u64>,
}

impl View for GPUInfo {
    type V = GpuInfoV;

    open spec fn view(&self) -> GpuInfoV {
        GpuInfoV {
            id: self.id@,
            vendor: self.vendor@,
            model: self.model@,
            vram_mb: self.vram_mb,
            driver_version: self.driver_version@,
            metal_support: self.metal_support,
            vulkan_support: self.vulkan_support,
            directx_major: self.directx_major,
            iommu_group: self.iommu_group,
        }
    }
}

/// One candidate device as read from the host device tree. Identity
/// fields that could not be read are `None`; such a device is skipped by
/// the scan, never fatal to it.
#[derive(Debug, Clone)]
pub struct ScanEntry {
    /// Stable bus address of the device.
    pub address: String,
    /// Hexadecimal vendor identifier, possibly with surrounding blanks.
    pub vendor_id: Option<String>,
    /// Human-readable model name.
    pub model: Option<String>,
    /// Device class: base class, subclass and interface.
    pub class_code: u32,
    /// The device's isolation domain, when the host resolves one.
    pub iommu_group: Option<u64>,
    /// Total VRAM in MB; absent when telemetry failed.
    pub vram_mb: Option<u64>,
    /// Driver version string; absent when telemetry failed.
    pub driver_version: Option<String>,
}

/// Mathematical image of a [`ScanEntry`].
#[verifier::ext_equal]
pub ghost struct ScanEntryV {
    pub address: Seq<char>,
    pub vendor_id: Option<Seq<char>>,
    pub model: Option<Seq<char>>,
    pub class_code: u32,
    pub iommu_group: Option<u64>,
    pub vram_mb: Option<u64>,
    pub driver_version: Option<Seq<char>>,
}

impl View for ScanEntry {
    type V = ScanEntryV;

    open spec fn view(&self) -> ScanEntryV {
        ScanEntryV {
            address: self.address@,
            vendor_id: match self.vendor_id {
                Some(v) => Some(v@),
                None => None,
            },
            model: match self.model {
                Some(m) => Some(m@),
                None => None,
            },
            class_code: self.class_code,
            iommu_group: self.iommu_group,
            vram_mb: self.vram_mb,
            driver_version: match self.driver_version {
                Some(d) => Some(d@),
                None => None,
            },
        }
    }
}

/// A member of an isolation group: a device address with its class.
#[derive(Debug, Clone)]
pub struct GroupMember {
    pub address: String,
    pub class_code: u32,
}

/// Mathematical image of a [`GroupMember`].
#[verifier::ext_equal]
pub ghost struct GroupMemberV {
    pub address: Seq<char>,
    pub class_code: u32,
}

impl View for GroupMember {
    type V = GroupMemberV;

    open spec fn view(&self) -> GroupMemberV {
        GroupMemberV { address: self.address@, class_code: self.class_code }
    }
}

/// The devices sharing one hardware isolation domain, with the computed
/// viability verdict. Recomputed on every scan, never persisted.
#[derive(Debug, Clone)]
pub struct IsolationGroup {
    pub group_id: u64,
    pub devices: Vec<GroupMember>,
    pub viable: bool,
}

/// Mathematical image of an [`IsolationGroup`].
#[verifier::ext_equal]
pub ghost struct GroupV {
    pub group_id: u64,
    pub devices: Seq<GroupMemberV>,
    pub viable: bool,
}

impl View for IsolationGroup {
    type V = GroupV;

    open spec fn view(&self) -> GroupV {
        GroupV {
            group_id: self.group_id,
            devices: self.devices@.map_values(|m: GroupMember| m@),
            viable: self.viable,
        }
    }
}

/// Why an inventory operation failed; each variant names the offending
/// identifier.
#[derive(Debug, Clone, PartialEq, Eq)]
pub enum GPUError {
    NotFound,
    AlreadyAttached,
    UnsupportedPlatform(String),
    IommuGroupNotFound(u64),
    UnsafeIommuGroup(String),
    UnsupportedVendor(String),
    UnsupportedModel(String),
    UnsupportedDriverVersion(String),
    UnsupportedVRAM(String),
    DetectionError(String),
}

/// The base class of a device class code.
pub open spec fn base_class(c: u32) -> int {
    c as int / 65536
}

/// The subclass of a device class code.
pub open spec fn sub_class(c: u32) -> int {
    (c as int / 256) % 256
}

/// A display controller: the device being passed through.
pub open spec fn is_display_class(c: u32) -> bool {
    base_class(c) == 3
}

/// An audio function: a companion device that may share the GPU's
/// isolation domain without making passthrough unsafe.
pub open spec fn is_audio_class(c: u32) -> bool {
    base_class(c) == 4 && (sub_class(c) == 1 || sub_class(c) == 3)
}

/// A device that may sit in a passthrough group: display or audio.
pub open spec fn eligible_class(c: u32) -> bool {
    is_display_class(c) || is_audio_class(c)
}

/// A group is viable exactly when every member is display or audio.
pub open spec fn group_viable(devices: Seq<GroupMemberV>) -> bool {
    forall|k: int| 0 <= k < devices.len() ==> eligible_class((#[trigger] devices[k]).class_code)
}

/// The known GPU vendor identifiers.
pub open spec fn is_gpu_vendor(v: Seq<char>) -> bool {
    v == "10de"@ || v == "1002"@ || v == "8086"@
}

/// The marketing name of a known vendor identifier.
pub open spec fn vendor_name_of(v: Seq<char>) -> Seq<char> {
    if v == "10de"@ {
        "NVIDIA"@
    } else if v == "1002"@ {
        "AMD"@
    } else {
        "Intel"@
    }
}

/// Whether a scanned candidate is taken into the inventory: its identity
/// fields were readable and its vendor is a known GPU vendor.
pub open spec fn entry_is_gpu(e: ScanEntryV) -> bool {
    &&& e.vendor_id is Some
    &&& e.model is Some
    &&& is_gpu_vendor(spec_trim(e.vendor_id->0))
}

/// The inventory record made from one accepted candidate.
pub open spec fn info_of(e: ScanEntryV) -> GpuInfoV {
    GpuInfoV {
        id: e.address,
        vendor: vendor_name_of(spec_trim(e.vendor_id->0)),
        model: e.model->0,
        vram_mb: match e.vram_mb {
            Some(v) => v,
            None => 0,
        },
        driver_version: match e.driver_version {
            Some(d) => d,
            None => Seq::empty(),
        },
        metal_support: None,
        vulkan_support: Some(true),
        directx_major: None,
        iommu_group: e.iommu_group,
    }
}

/// The inventory a scan produces: accepted candidates in scan order.
pub open spec fn scan_devices(s: Seq<ScanEntryV>) -> Seq<GpuInfoV>
    decreases s.len(),
{
    if s.len() == 0 {
        Seq::empty()
    } else if entry_is_gpu(s.last()) {
        scan_devices(s.drop_last()).push(info_of(s.last()))
    } else {
        scan_devices(s.drop_last())
    }
}

/// The views of a vector of scan entries.
pub open spec fn entries_view(s: Seq<ScanEntry>) -> Seq<ScanEntryV> {
    s.map_values(|e: ScanEntry| e@)
}

/// The views of a vector of inventory records.
pub open spec fn devices_view(s: Seq<GPUInfo>) -> Seq<GpuInfoV> {
    s.map_values(|g: GPUInfo| g@)
}

/// The views of a vector of isolation groups.
pub open spec fn groups_view(s: Seq<IsolationGroup>) -> Seq<GroupV> {
    s.map_values(|g: IsolationGroup| g@)
}

/// Whether some group of `gs` has id `gid`.
pub open spec fn has_group(gs: Seq<GroupV>, gid: u64) -> bool {
    exists|i: int| 0 <= i < gs.len() && (#[trigger] gs[i]).group_id == gid
}

/// The index of the group with id `gid` (unique when ids are unique).
pub open spec fn group_idx(gs: Seq<GroupV>, gid: u64) -> int {
    choose|i: int| 0 <= i < gs.len() && (#[trigger] gs[i]).group_id == gid
}

/// Group ids are unique.
pub open spec fn groups_wf(gs: Seq<GroupV>) -> bool {
    forall|i: int, j: int|
        0 <= i < j < gs.len() ==> (#[trigger] gs[i]).group_id != (#[trigger] gs[j]).group_id
}

/// How one scanned device extends the groups built so far.
pub open spec fn add_entry(gs: Seq<GroupV>, e: ScanEntryV) -> Seq<GroupV> {
    match e.iommu_group {
        None => gs,
        Some(gid) => {
            let m = GroupMemberV { address: e.address, class_code: e.class_code };
            if has_group(gs, gid) {
                let i = group_idx(gs, gid);
                gs.update(
                    i,
                    GroupV {
                        group_id: gid,
                        devices: gs[i].devices.push(m),
                        viable: gs[i].viable && eligible_class(e.class_code),
                    },
                )
            } else {
                gs.push(
                    GroupV {
                        group_id: gid,
                        devices: seq![m],
                        viable: eligible_class(e.class_code),
                    },
                )
            }
        },
    }
}

/// The isolation groups of a scan: every device that resolves an
/// isolation domain, grouped by domain id, in order of first appearance.
pub open spec fn spec_groups(s: Seq<ScanEntryV>) -> Seq<GroupV>
    decreases s.len(),
{
    if s.len() == 0 {
        Seq::empty()
    } else {
        add_entry(spec_groups(s.drop_last()), s.last())
    }
}

/// Manages the device inventory: the scanned GPUs and the isolation
/// groups of the last scan.
#[derive(Debug)]
pub struct GPUManager {
    pub devices: Vec<GPUInfo>,
    pub iommu_groups: Vec<IsolationGroup>,
}

/// Whether `vendor`, after trimming surrounding blanks, is a known GPU
/// vendor identifier. The second argument, the device identifier, does
/// not influence the verdict.
pub fn is_gpu_device(vendor: &str, _device: &str) -> (r: bool)
    ensures
        r == is_gpu_vendor(spec_trim(vendor@)),
{
    let v = trim_str(vendor);
    str_eq(v, "10de") || str_eq(v, "1002") || str_eq(v, "8086")
}

impl GPUManager {
    /// An empty inventory; a scan fills it.
    pub fn new() -> (m: GPUManager)
        ensures
            m.devices@.len() == 0,
            m.iommu_groups@.len() == 0,
    {
        GPUManager { devices: Vec::new(), iommu_groups: Vec::new() }
    }

    /// Replaces the inventory with the GPUs among the scanned candidates:
    /// entries of known GPU vendors whose identity fields were readable.
    /// A candidate with unreadable identity is skipped, never fatal.
    pub fn detect_gpus(&mut self, entries: &Vec<ScanEntry>)
        ensures
            devices_view(final(self).devices@) == scan_devices(entries_view(entries@)),
            final(self).iommu_groups@ == old(self).iommu_groups@,
    {
        let ghost es = entries_view(entries@);
        let n = entries.len();
        let mut devices: Vec<GPUInfo> = Vec::new();
        let mut i: usize = 0;
        while i < n
            invariant
                n == entries@.len(),
                i <= n,
                es == entries_view(entries@),
                devices_view(devices@) =~= scan_devices(es.take(i as int)),
            decreases n - i,
        {
            let ghost pre = devices_view(devices@);
            let e = &entries[i];
            proof {
                assert(es[i as int] == entries@[i as int]@);
                assert(es.take(i + 1).drop_last() =~= es.take(i as int));
            }
            let accepted = match (&e.vendor_id, &e.model) {
                (Some(vendor), Some(_)) => is_gpu_device(vendor.as_str(), e.address.as_str()),
                _ => false,
            };
            proof {
                assert(accepted == entry_is_gpu(es[i as int]));
            }
            if accepted {
                let vendor_raw = match &e.vendor_id {
                    Some(v) => v.as_str(),
                    None => "",
                };
                let trimmed = trim_str(vendor_raw);
                let vendor = if str_eq(trimmed, "10de") {
                    "NVIDIA"
                } else if str_eq(trimmed, "1002") {
                    "AMD"
                } else {
                    "Intel"
                };
                let model = match &e.model {
                    Some(m) => m.clone(),
                    None => String::new(),
                };
                let vram_mb = match &e.vram_mb {
                    Some(v) => *v,
                    None => 0,
                };
                let driver_version = match &e.driver_version {
                    Some(d) => d.clone(),
                    None => String::new(),
                };
                let info = GPUInfo {
                    id: e.address.clone(),
                    vendor: vendor.to_owned(),
                    model,
                    vram_mb,
                    driver_version,
                    metal_support: None,
                    vulkan_support: Some(true),
                    directx_major: None,
                    iommu_group: e.iommu_group,
                };
                proof {
                    assert(info@ == info_of(es[i as int]));
                }
                devices.push(info);
                proof {
                    assert(devices_view(devices@) =~= pre.push(info_of(es[i as int])));
                }
            }
            i = i + 1;
        }
        proof {
            assert(es.take(n as int) =~= es);
        }
        self.devices = devices;
    }

    /// Rebuilds the isolation groups from the scanned candidates: every
    /// device with a resolvable isolation-domain link joins the group of
    /// that domain; a group's verdict is viable exactly when all its
    /// members are display or audio functions.
    pub fn build_iommu_groups(&mut self, entries: &Vec<ScanEntry>)
        ensures
            groups_view(final(self).iommu_groups@) == spec_groups(entries_view(entries@)),
            final(self).devices@ == old(self).devices@,
    {
        let ghost es = entries_view(entries@);
        let n = entries.len();
        let mut groups: Vec<IsolationGroup> = Vec::new();
        let mut i: usize = 0;
        while i < n
            invariant
                n == entries@.len(),
                i <= n,
                es == entries_view(entries@),
                groups_view(groups@) == spec_groups(es.take(i as int)),
            decreases n - i,
        {
            let ghost pre = groups_view(groups@);
            let e = &entries[i];
            proof {
                assert(es[i as int] == entries@[i as int]@);
                assert(es.take(i + 1).drop_last() =~= es.take(i as int));
            }
            if let Some(gid) = e.iommu_group {
                let member = GroupMember { address: e.address.clone(), class_code: e.class_code };
                let eligible = {
                    let c = e.class_code;
                    let base = c / 65536;
                    let sub = (c / 256) % 256;
                    base == 3 || (base == 4 && (sub == 1 || sub == 3))
                };
                proof {
                    assert(eligible == eligible_class(e.class_code));
                    assert(member@ == (GroupMemberV {
                        address: es[i as int].address,
                        class_code: es[i as int].class_code,
                    }));
                }
                proof {
                    lemma_spec_groups_wf(es.take(i as int));
                }
                let found = GPUManager::find_group_slot(&groups, gid);
                match found {
                    Some(f) => {
                        let viable_old = groups[f].viable;
                        groups[f].devices.push(member);
                        groups[f].viable = viable_old && eligible;
                        proof {
                            let after = groups_view(groups@);
                            let target = add_entry(pre, es[i as int]);
                            assert(after[f as int].devices =~= pre[f as int].devices.push(
                                member@,
                            ));
                            assert(after =~~= target);
                        }
                    },
                    None => {
                        let mut devs: Vec<GroupMember> = Vec::new();
                        devs.push(member);
                        let grp = IsolationGroup { group_id: gid, devices: devs, viable: eligible };
                        proof {
                            assert(grp@.devices =~= seq![
                                GroupMemberV {
                                    address: es[i as int].address,
                                    class_code: es[i as int].class_code,
                                },
                            ]);
                        }
                        groups.push(grp);
                        proof {
                            assert(groups_view(groups@) =~~= add_entry(pre, es[i as int]));
                        }
                    },
                }
            }
            i = i + 1;
        }
        proof {
            assert(es.take(n as int) =~= es);
        }
        self.iommu_groups = groups;
    }

    /// Index of the group with id `group_id` in `groups`.
    fn find_group_slot(groups: &Vec<IsolationGroup>, group_id: u64) -> (r: Option<usize>)
        requires
            groups_wf(groups_view(groups@)),
        ensures
            match r {
                Some(i) => i < groups@.len() && groups@[i as int]@.group_id == group_id
                    && i as int == group_idx(groups_view(groups@), group_id)
                    && has_group(groups_view(groups@), group_id),
                None => !has_group(groups_view(groups@), group_id),
            },
    {
        let ghost gs = groups_view(groups@);
        let n = groups.len();
        let mut i: usize = 0;
        while i < n
            invariant
                n == groups@.len(),
                i <= n,
                gs == groups_view(groups@),
                groups_wf(gs),
                forall|k: int| 0 <= k < i ==> (#[trigger] gs[k]).group_id != group_id,
            decreases n - i,
        {
            if groups[i].group_id == group_id {
                proof {
                    assert(gs[i as int].group_id == group_id);
                    let c = group_idx(gs, group_id);
                    assert(0 <= c < gs.len() && gs[c].group_id == group_id);
                    if c != i as int {
                        assert(false);
                    }
                }
                return Some(i);
            }
            proof {
                assert(gs[i as int] == groups@[i as int]@);
            }
            i = i + 1;
        }
        proof {
            if has_group(gs, group_id) {
                let c = group_idx(gs, group_id);
                assert(0 <= c < gs.len() && gs[c].group_id == group_id);
                assert(false);
            }
        }
        None
    }

    /// Index of the group with id `group_id`, when the groups are those
    /// of a scan.
    fn find_group(&self, group_id: u64) -> (r: Option<usize>)
        requires
            groups_wf(groups_view(self.iommu_groups@)),
        ensures
            match r {
                Some(i) => i < self.iommu_groups@.len()
                    && self.iommu_groups@[i as int]@.group_id == group_id
                    && i as int == group_idx(groups_view(self.iommu_groups@), group_id)
                    && has_group(groups_view(self.iommu_groups@), group_id),
                None => !has_group(groups_view(self.iommu_groups@), group_id),
            },
    {
        GPUManager::find_group_slot(&self.iommu_groups, group_id)
    }

    /// Checks that the group `group_id` is safe for passthrough: it must
    /// exist and every member must be a display or audio function.
    pub fn validate_iommu_group(&self, group_id: u64) -> (r: Result<(), GPUError>)
        requires
            groups_wf(groups_view(self.iommu_groups@)),
        ensures
            ({
                let gs = groups_view(self.iommu_groups@);
                match r {
                    Ok(()) => has_group(gs, group_id) && gs[group_idx(gs, group_id)].viable,
                    Err(GPUError::IommuGroupNotFound(g)) => g == group_id && !has_group(
                        gs,
                        group_id,
                    ),
                    Err(GPUError::UnsafeIommuGroup(_)) => has_group(gs, group_id) && !gs[group_idx(
                        gs,
                        group_id,
                    )].viable,
                    _ => false,
                }
            }),
    {
        match self.find_group(group_id) {
            None => Err(GPUError::IommuGroupNotFound(group_id)),
            Some(i) => {
                if self.iommu_groups[i].viable {
                    Ok(())
                } else {
                    Err(GPUError::UnsafeIommuGroup(crate::utils::u64_to_string(group_id)))
                }
            },
        }
    }

    /// Index of the inventory device with bus address `gpu_id`.
    fn find_device(&self, gpu_id: &str) -> (r: Option<usize>)
        ensures
            match r {
                Some(i) => i < self.devices@.len() && self.devices@[i as int]@.id == gpu_id@,
                None => forall|k: int|
                    0 <= k < self.devices@.len() ==> (#[trigger] self.devices@[k])@.id != gpu_id@,
            },
    {
        let n = self.devices.len();
        let mut i: usize = 0;
        while i < n
            invariant
                n == self.devices@.len(),
                i <= n,
                forall|k: int| 0 <= k < i ==> (#[trigger] self.devices@[k])@.id != gpu_id@,
            decreases n - i,
        {
            if str_eq(self.devices[i].id.as_str(), gpu_id) {
                return Some(i);
            }
            i = i + 1;
        }
        None
    }

    /// The isolation group of the device `gpu_id`, or `NotFound` when the
    /// inventory holds no such device.
    pub fn get_iommu_group(&self, gpu_id: &str) -> (r: Result<Option<u64>, GPUError>)
        ensures
            match r {
                Ok(g) => exists|k: int|
                    0 <= k < self.devices@.len() && (#[trigger] self.devices@[k])@.id == gpu_id@
                        && self.devices@[k]@.iommu_group == g,
                Err(e) => e == GPUError::NotFound && forall|k: int|
                    0 <= k < self.devices@.len() ==> (#[trigger] self.devices@[k])@.id != gpu_id@,
            },
    {
        match self.find_device(gpu_id) {
            Some(i) => Ok(self.devices[i].iommu_group),
            None => Err(GPUError::NotFound),
        }
    }

    /// A snapshot of all scanned GPUs.
    pub fn list_available_devices(&self) -> (r: Result<Vec<GPUInfo>, GPUError>)
        ensures
            r is Ok,
            devices_view(r->Ok_0@) == devices_view(self.devices@),
    {
        Ok(self.clone_devices())
    }

    /// A snapshot of all scanned GPUs.
    pub fn discover_gpus(&self) -> (r: Result<Vec<GPUInfo>, GPUError>)
        ensures
            r is Ok,
            devices_view(r->Ok_0@) == devices_view(self.devices@),
    {
        Ok(self.clone_devices())
    }

    /// Copies the inventory records.
    fn clone_devices(&self) -> (r: Vec<GPUInfo>)
        ensures
            devices_view(r@) == devices_view(self.devices@),
    {
        let n = self.devices.len();
        let mut r: Vec<GPUInfo> = Vec::new();
        let mut i: usize = 0;
        while i < n
            invariant
                n == self.devices@.len(),
                i <= n,
                devices_view(r@) =~= devices_view(self.devices@).take(i as int),
            decreases n - i,
        {
            let ghost pre = devices_view(r@);
            let g = &self.devices[i];
            let copy = GPUInfo {
                id: g.id.clone(),
                vendor: g.vendor.clone(),
                model: g.model.clone(),
                vram_mb: g.vram_mb,
                driver_version: g.driver_version.clone(),
                metal_support: g.metal_support,
                vulkan_support: g.vulkan_support,
                directx_major: g.directx_major,
                iommu_group: g.iommu_group,
            };
            proof {
                assert(copy@ == devices_view(self.devices@)[i as int]);
            }
            r.push(copy);
            proof {
                assert(devices_view(r@) =~= pre.push(devices_view(self.devices@)[i as int]));
            }
            i = i + 1;
        }
        proof {
            assert(devices_view(self.devices@).take(n as int) =~= devices_view(self.devices@));
        }
        r
    }

    /// Whether the device may be passed through: a device in a known
    /// isolation group needs the group's verdict to be viable; a device
    /// without a resolvable group is safe only as the sole candidate of
    /// the scan, an implicit single-device group.
    pub open spec fn spec_passthrough_safe(&self, i: int) -> bool {
        match self.devices@[i]@.iommu_group {
            Some(g) => {
                let gs = groups_view(self.iommu_groups@);
                has_group(gs, g) && gs[group_idx(gs, g)].viable
            },
            None => self.devices@.len() == 1,
        }
    }

    /// Marks the device `gpu_id` as attached to the given sandbox: the
    /// device must be in the inventory and its isolation group must be
    /// safe for passthrough.
    pub fn attach_gpu(&self, _container_id: &str, gpu_id: &str) -> (r: Result<(), GPUError>)
        requires
            groups_wf(groups_view(self.iommu_groups@)),
        ensures
            match r {
                Ok(()) => exists|i: int|
                    0 <= i < self.devices@.len() && (#[trigger] self.devices@[i])@.id == gpu_id@
                        && self.spec_passthrough_safe(i),
                Err(GPUError::NotFound) => forall|k: int|
                    0 <= k < self.devices@.len() ==> (#[trigger] self.devices@[k])@.id != gpu_id@,
                Err(GPUError::UnsafeIommuGroup(_)) => exists|i: int|
                    0 <= i < self.devices@.len() && (#[trigger] self.devices@[i])@.id == gpu_id@
                        && !self.spec_passthrough_safe(i),
                Err(GPUError::IommuGroupNotFound(_)) => false,
                _ => false,
            },
    {
        let i = match self.find_device(gpu_id) {
            Some(i) => i,
            None => {
                return Err(GPUError::NotFound);
            },
        };
        match self.devices[i].iommu_group {
            Some(g) => {
                match self.find_group(g) {
                    Some(j) => {
                        if self.iommu_groups[j].viable {
                            Ok(())
                        } else {
                            Err(GPUError::UnsafeIommuGroup(crate::utils::u64_to_string(g)))
                        }
                    },
                    None => Err(GPUError::UnsafeIommuGroup(crate::utils::u64_to_string(g))),
                }
            },
            None => {
                if self.devices.len() == 1 {
                    Ok(())
                } else {
                    Err(GPUError::UnsafeIommuGroup(self.devices[i].id.clone()))
                }
            },
        }
    }
}

impl GPUInfo {
    /// A fixed specimen record, for exercising consumers without a scan.
    pub fn mock() -> (g: GPUInfo)
        ensures
            g@.id == "mock-gpu-1"@,
            g@.vendor == "NVIDIA"@,
            g@.model == "Test GPU X9000"@,
            g@.vram_mb == 16384,
            g@.driver_version == "510.00"@,
            g@.metal_support == Some(true),
            g@.vulkan_support == Some(true),
            g@.directx_major == Some(12u32),
            g@.iommu_group == Some(42u64),
    {
        GPUInfo {
            id: String::from_str("mock-gpu-1"),
            vendor: String::from_str("NVIDIA"),
            model: String::from_str("Test GPU X9000"),
            vram_mb: 16384,
            driver_version: String::from_str("510.00"),
            metal_support: Some(true),
            vulkan_support: Some(true),
            directx_major: Some(12),
            iommu_group: Some(42),
        }
    }
}

/// What one device-event record of the host tells: identity fields keyed
/// as `NAME=value` lines.
#[derive(Debug, Clone)]
pub struct UeventInfo {
    pub device_id: String,
    pub subsystem_id: String,
    pub model: String,
}

/// Mathematical image of a [`UeventInfo`].
#[verifier::ext_equal]
pub ghost struct UeventV {
    pub device_id: Seq<char>,
    pub subsystem_id: Seq<char>,
    pub model: Seq<char>,
}

impl View for UeventInfo {
    type V = UeventV;

    open spec fn view(&self) -> UeventV {
        UeventV {
            device_id: self.device_id@,
            subsystem_id: self.subsystem_id@,
            model: self.model@,
        }
    }
}

/// How one `NAME=value` line updates the record: the device id, the
/// subsystem id, or the model read from the third `:`-field of the module
/// alias; any other line changes nothing.
pub open spec fn apply_uevent_line(st: UeventV, line: Seq<char>) -> UeventV {
    let parts = crate::utils::spec_split(line, '=');
    if parts.len() < 2 {
        st
    } else if parts[0] == "PCI_ID"@ {
        UeventV { device_id: parts[1], ..st }
    } else if parts[0] == "PCI_SUBSYS_ID"@ {
        UeventV { subsystem_id: parts[1], ..st }
    } else if parts[0] == "MODALIAS"@ {
        let fields = crate::utils::spec_split(parts[1], ':');
        if fields.len() > 2 {
            UeventV { model: fields[2], ..st }
        } else {
            st
        }
    } else {
        st
    }
}

/// The record after all lines, later lines overriding earlier ones.
pub open spec fn spec_parse_uevent(lines: Seq<Seq<char>>) -> UeventV
    decreases lines.len(),
{
    if lines.len() == 0 {
        UeventV { device_id: Seq::empty(), subsystem_id: Seq::empty(), model: Seq::empty() }
    } else {
        apply_uevent_line(spec_parse_uevent(lines.drop_last()), lines.last())
    }
}

/// Reads a device-event record: `NAME=value` lines carrying the device's
/// identity. The embedding layer hands the file's text in.
pub fn parse_uevent(contents: &str) -> (r: UeventInfo)
    ensures
        r@ == spec_parse_uevent(crate::utils::spec_split(contents@, '\n')),
{
    let lines = crate::utils::split_char(contents, '\n');
    let ghost lv = crate::utils::views_of(lines@);
    let n = lines.len();
    let mut info = UeventInfo {
        device_id: String::new(),
        subsystem_id: String::new(),
        model: String::new(),
    };
    let mut i: usize = 0;
    while i < n
        invariant
            n == lines@.len(),
            i <= n,
            lv == crate::utils::views_of(lines@),
            info@ == spec_parse_uevent(lv.take(i as int)),
        decreases n - i,
    {
        proof {
            assert(lv[i as int] == lines@[i as int]@);
            assert(lv.take(i + 1).drop_last() =~= lv.take(i as int));
            assert(lv.take(i + 1).last() == lv[i as int]);
        }
        let parts = crate::utils::split_char(lines[i].as_str(), '=');
        proof {
            if parts@.len() >= 2 {
                assert(crate::utils::views_of(parts@)[0] == parts@[0]@);
                assert(crate::utils::views_of(parts@)[1] == parts@[1]@);
            }
        }
        if parts.len() >= 2 {
            if str_eq(parts[0].as_str(), "PCI_ID") {
                info.device_id = parts[1].clone();
            } else if str_eq(parts[0].as_str(), "PCI_SUBSYS_ID") {
                info.subsystem_id = parts[1].clone();
            } else if str_eq(parts[0].as_str(), "MODALIAS") {
                let fields = crate::utils::split_char(parts[1].as_str(), ':');
                proof {
                    if fields@.len() > 2 {
                        assert(crate::utils::views_of(fields@)[2] == fields@[2]@);
                    }
                }
                if fields.len() > 2 {
                    info.model = fields[2].clone();
                }
            }
        }
        i = i + 1;
    }
    proof {
        assert(lv.take(n as int) =~= lv);
    }
    info
}

/// Group ids are unique in the groups of any scan.
pub proof fn lemma_spec_groups_wf(s: Seq<ScanEntryV>)
    ensures
        groups_wf(spec_groups(s)),
    decreases s.len(),
{
    if s.len() > 0 {
        lemma_spec_groups_wf(s.drop_last());
        let gs = spec_groups(s.drop_last());
        let e = s.last();
        match e.iommu_group {
            None => {},
            Some(gid) => {
                if has_group(gs, gid) {
                    let i = group_idx(gs, gid);
                    assert(0 <= i < gs.len() && gs[i].group_id == gid);
                } else {
                    assert forall|i: int, j: int|
                        0 <= i < j < spec_groups(s).len() implies (#[trigger] spec_groups(
                        s,
                    )[i]).group_id != (#[trigger] spec_groups(s)[j]).group_id by {
                        if j == gs.len() {
                            if spec_groups(s)[i].group_id == gid {
                                assert(gs[i].group_id == gid);
                            }
                        }
                    }
                }
            },
        }
    }
}

/// Membership in the groups of a scan: address `a` sits in the group
/// `gid` exactly when some scanned entry carries that address and that
/// isolation domain.
pub open spec fn entry_links(s: Seq<ScanEntryV>, a: Seq<char>, gid: u64) -> bool {
    exists|k: int|
        0 <= k < s.len() && (#[trigger] s[k]).address == a && s[k].iommu_group == Some(gid)
}

/// Whether address `a` is a member of the group with id `gid`.
pub open spec fn in_group(gs: Seq<GroupV>, gid: u64, a: Seq<char>) -> bool {
    exists|i: int, k: int|
        #![trigger gs[i].devices[k]]
        0 <= i < gs.len() && gs[i].group_id == gid && 0 <= k < gs[i].devices.len()
            && gs[i].devices[k].address == a
}

proof fn lemma_groups_membership(s: Seq<ScanEntryV>, gid: u64, a: Seq<char>)
    ensures
        in_group(spec_groups(s), gid, a) <==> entry_links(s, a, gid),
    decreases s.len(),
{
    if s.len() == 0 {
    } else {
        let pre = spec_groups(s.drop_last());
        let e = s.last();
        let gs = spec_groups(s);
        lemma_groups_membership(s.drop_last(), gid, a);
        lemma_spec_groups_wf(s.drop_last());
        match e.iommu_group {
            None => {
                assert(entry_links(s, a, gid) <==> entry_links(s.drop_last(), a, gid)) by {
                    if entry_links(s, a, gid) {
                        let k = choose|k: int|
                            0 <= k < s.len() && (#[trigger] s[k]).address == a && s[k].iommu_group
                                == Some(gid);
                        assert(k < s.len() - 1);
                        assert(s.drop_last()[k] == s[k]);
                    }
                    if entry_links(s.drop_last(), a, gid) {
                        let sd = s.drop_last();
                        let k = choose|k: int|
                            0 <= k < sd.len() && (#[trigger] sd[k]).address == a
                                && sd[k].iommu_group == Some(gid);
                        assert(s[k] == sd[k]);
                    }
                }
            },
            Some(g2) => {
                let m = GroupMemberV { address: e.address, class_code: e.class_code };
                if g2 == gid && e.address == a {
                    assert(entry_links(s, a, gid)) by {
                        assert(s[s.len() - 1].address == a && s[s.len() - 1].iommu_group == Some(
                            gid,
                        ));
                    }
                    assert(in_group(gs, gid, a)) by {
                        if has_group(pre, g2) {
                            let i = group_idx(pre, g2);
                            assert(0 <= i < pre.len() && pre[i].group_id == g2);
                            assert(gs[i].group_id == gid);
                            let k = gs[i].devices.len() - 1;
                            assert(gs[i].devices[k].address == a);
                        } else {
                            let i = gs.len() - 1;
                            assert(gs[i].group_id == gid);
                            assert(gs[i].devices[0].address == a);
                        }
                    }
                } else {
                    assert(entry_links(s, a, gid) <==> entry_links(s.drop_last(), a, gid)) by {
                        if entry_links(s, a, gid) {
                            let k = choose|k: int|
                                0 <= k < s.len() && (#[trigger] s[k]).address == a
                                    && s[k].iommu_group == Some(gid);
                            assert(k < s.len() - 1);
                            assert(s.drop_last()[k] == s[k]);
                        }
                        if entry_links(s.drop_last(), a, gid) {
                            let sd = s.drop_last();
                            let k = choose|k: int|
                                0 <= k < sd.len() && (#[trigger] sd[k]).address == a
                                    && sd[k].iommu_group == Some(gid);
                            assert(s[k] == sd[k]);
                        }
                    }
                    assert(in_group(gs, gid, a) <==> in_group(pre, gid, a)) by {
                        if in_group(pre, gid, a) {
                            let (i, k) = choose|i: int, k: int|
                                #![trigger pre[i].devices[k]]
                                0 <= i < pre.len() && pre[i].group_id == gid && 0 <= k
                                    < pre[i].devices.len() && pre[i].devices[k].address == a;
                            assert(gs[i].group_id == gid);
                            assert(gs[i].devices[k].address == a);
                        }
                        if in_group(gs, gid, a) {
                            let (i, k) = choose|i: int, k: int|
                                #![trigger gs[i].devices[k]]
                                0 <= i < gs.len() && gs[i].group_id == gid && 0 <= k
                                    < gs[i].devices.len() && gs[i].devices[k].address == a;
                            if has_group(pre, g2) {
                                let j = group_idx(pre, g2);
                                assert(0 <= j < pre.len() && pre[j].group_id == g2);
                                if i == j && g2 == gid {
                                    assert(k < pre[i].devices.len());
                                    assert(pre[i].devices[k].address == a);
                                } else if i == j {
                                    assert(pre[j].group_id == g2);
                                    assert(gs[i].group_id == g2);
                                } else {
                                    assert(gs[i] == pre[i]);
                                }
                            } else {
                                if i == gs.len() - 1 {
                                    assert(gs[i].group_id == g2);
                                    assert(gs[i].devices =~= seq![m]);
                                    assert(gs[i].devices[k].address == e.address);
                                } else {
                                    assert(gs[i] == pre[i]);
                                }
                            }
                        }
                    }
                }
            },
        }
    }
}

/// Every device id appears in at most one isolation group of a scan: if
/// the scanned addresses are distinct and address `a` is a member of two
/// groups, the two are the same group.
pub proof fn lemma_device_in_one_group(s: Seq<ScanEntryV>, g1: u64, g2: u64, a: Seq<char>)
    requires
        forall|i: int, j: int|
            0 <= i < j < s.len() ==> (#[trigger] s[i]).address != (#[trigger] s[j]).address,
        in_group(spec_groups(s), g1, a),
        in_group(spec_groups(s), g2, a),
    ensures
        g1 == g2,
{
    lemma_groups_membership(s, g1, a);
    lemma_groups_membership(s, g2, a);
    let k1 = choose|k: int|
        0 <= k < s.len() && (#[trigger] s[k]).address == a && s[k].iommu_group == Some(g1);
    let k2 = choose|k: int|
        0 <= k < s.len() && (#[trigger] s[k]).address == a && s[k].iommu_group == Some(g2);
    if k1 != k2 {
        assert(false);
    }
}

/// The verdict a scan stores is the verdict the members warrant: a group
/// of a scan is marked viable exactly when all its members are display
/// or audio functions.
pub proof fn lemma_groups_viable_correct(s: Seq<ScanEntryV>, i: int)
    requires
        0 <= i < spec_groups(s).len(),
    ensures
        spec_groups(s)[i].viable == group_viable(spec_groups(s)[i].devices),
    decreases s.len(),
{
    if s.len() > 0 {
        let pre = spec_groups(s.drop_last());
        let gs = spec_groups(s);
        let e = s.last();
        match e.iommu_group {
            None => {
                lemma_groups_viable_correct(s.drop_last(), i);
            },
            Some(gid) => {
                let m = GroupMemberV { address: e.address, class_code: e.class_code };
                if has_group(pre, gid) {
                    let j = group_idx(pre, gid);
                    assert(0 <= j < pre.len() && pre[j].group_id == gid);
                    if i == j {
                        lemma_groups_viable_correct(s.drop_last(), j);
                        assert(gs[i].devices == pre[j].devices.push(m));
                        if gs[i].viable {
                            assert forall|k: int| 0 <= k < gs[i].devices.len() implies
                                eligible_class((#[trigger] gs[i].devices[k]).class_code) by {
                                if k < pre[j].devices.len() {
                                    assert(gs[i].devices[k] == pre[j].devices[k]);
                                } else {
                                    assert(gs[i].devices[k] == m);
                                }
                            }
                        } else {
                            if !pre[j].viable {
                                let k = choose|k: int|
                                    0 <= k < pre[j].devices.len() && !eligible_class(
                                        (#[trigger] pre[j].devices[k]).class_code,
                                    );
                                assert(gs[i].devices[k] == pre[j].devices[k]);
                                assert(!group_viable(gs[i].devices));
                            } else {
                                assert(!eligible_class(m.class_code));
                                assert(gs[i].devices[gs[i].devices.len() - 1] == m);
                                assert(!group_viable(gs[i].devices));
                            }
                        }
                    } else {
                        assert(gs[i] == pre[i]);
                        lemma_groups_viable_correct(s.drop_last(), i);
                    }
                } else {
                    if i == gs.len() - 1 {
                        assert(gs[i].devices =~= seq![m]);
                        if eligible_class(m.class_code) {
                            assert forall|k: int| 0 <= k < gs[i].devices.len() implies
                                eligible_class((#[trigger] gs[i].devices[k]).class_code) by {
                                assert(gs[i].devices[k] == m);
                            }
                        } else {
                            assert(gs[i].devices[0] == m);
                        }
                    } else {
                        assert(gs[i] == pre[i]);
                        lemma_groups_viable_correct(s.drop_last(), i);
                    }
                }
            },
        }
    }
}

/// A group whose single member is a GPU — a display controller — is
/// viable.
pub proof fn lemma_single_gpu_group_viable(g: GroupV)
    requires
        g.devices.len() == 1,
        is_display_class(g.devices[0].class_code),
    ensures
        group_viable(g.devices),
{
    assert forall|k: int| 0 <= k < g.devices.len() implies eligible_class(
        (#[trigger] g.devices[k]).class_code,
    ) by {
        assert(g.devices[k] == g.devices[0]);
    }
}

/// A group holding a GPU together with an unrelated device — one that is
/// neither display nor audio — is not viable.
pub proof fn lemma_group_with_stranger_not_viable(g: GroupV, k: int)
    requires
        0 <= k < g.devices.len(),
        !eligible_class(g.devices[k].class_code),
    ensures
        !group_viable(g.devices),
{
}

} // verus!
