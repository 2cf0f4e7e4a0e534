//! VM configuration and the domain description it renders.
//!
//! The engine itself does not run VMs — the orchestration layer does —
//! but it renders the domain description that embeds a passthrough
//! device, so that rendering is exact, verified logic.

use vstd::prelude::*;
use crate::errors::VmError;
use crate::gpu::device::GPUConfig;
use crate::utils::os::Platform;
use crate::utils::{
    spec_split, spec_u64_string, split_char, strip_dot_zero, strip_dot_zero_str, u64_to_string,
};

verus! {

/// Configuration of one VM, with the optional passthrough device.
#[derive(Debug, Clone)]
pub struct VMConfig {
    pub name: String,
    pub memory_kb: u64,
    pub vcpus: u32,
    pub disk_path: String,
    pub disk_size_gb: u64,
    pub gpu_passthrough: Option<GPUConfig>,
    /// The host platform the rendering is for; the embedding layer sets
    /// it once at startup, Linux being the default.
    pub host_platform: Platform,
}

/// Runtime state of one VM.
#[derive(Debug)]
pub struct VirtualMachine {
    pub id: String,
    pub name: String,
    pub status: VMStatus,
    pub resources: VMResources,
    pub host_platform: Platform,
    pub vcpus: u32,
    pub memory_kb: u64,
}

/// The lifecycle state a VM reports.
#[derive(Debug, Clone, Copy, PartialEq, Eq, Structural)]
pub enum VMStatus {
    Running,
    Stopped,
    Paused,
    Suspended,
    Crashed,
    Creating,
    Migrating,
    Deleting,
    Unknown,
}

/// The status named by a numeric domain state.
pub open spec fn spec_status_of(state: u32) -> VMStatus {
    if state == 1 {
        VMStatus::Running
    } else if state == 2 {
        VMStatus::Stopped
    } else if state == 3 {
        VMStatus::Paused
    } else if state == 4 {
        VMStatus::Suspended
    } else if state == 5 {
        VMStatus::Crashed
    } else {
        VMStatus::Unknown
    }
}

impl From<u32> for VMStatus {
    /// The status for a numeric domain state; unknown numbers map to
    /// `Unknown`.
    fn from(state: u32) -> (r: VMStatus) {
        match state {
            1 => VMStatus::Running,
            2 => VMStatus::Stopped,
            3 => VMStatus::Paused,
            4 => VMStatus::Suspended,
            5 => VMStatus::Crashed,
            _ => VMStatus::Unknown,
        }
    }
}

impl vstd::std_specs::convert::FromSpecImpl<u32> for VMStatus {
    open spec fn obeys_from_spec() -> bool {
        true
    }

    open spec fn from_spec(state: u32) -> VMStatus {
        spec_status_of(state)
    }
}

/// Resource utilization of one VM; ratios in hundredths of a percent.
#[derive(Debug, Clone, Copy, PartialEq, Eq, Structural)]
pub struct VMResources {
    pub cpu_usage_centipercent: u64,
    pub memory_usage_mb: u64,
    pub disk_usage_centipercent: u64,
    pub network_rx: u64,
    pub network_tx: u64,
    pub gpu_usage_centipercent: Option<u64>,
}

impl Default for VMResources {
    /// All counters at zero, no GPU reading.
    fn default() -> (r: VMResources)
        ensures
            r == (VMResources {
                cpu_usage_centipercent: 0,
                memory_usage_mb: 0,
                disk_usage_centipercent: 0,
                network_rx: 0,
                network_tx: 0,
                gpu_usage_centipercent: None,
            }),
    {
        VMResources {
            cpu_usage_centipercent: 0,
            memory_usage_mb: 0,
            disk_usage_centipercent: 0,
            network_rx: 0,
            network_tx: 0,
            gpu_usage_centipercent: None,
        }
    }
}

/// The instruction-set name rendered for a platform.
pub open spec fn arch_of(p: Platform) -> Seq<char> {
    match p {
        Platform::MacOS => "aarch64"@,
        _ => "x86_64"@,
    }
}

/// The machine type rendered for a platform.
pub open spec fn machine_of(p: Platform) -> Seq<char> {
    match p {
        Platform::MacOS => "virt"@,
        _ => "pc-q35-6.2"@,
    }
}

/// The device block shared by every platform.
pub open spec fn common_devices() -> Seq<char> {
    "<devices>\n<console type='pty'/>\n<channel type='unix'>\n<target type='virtio' name='org.qemu.guest_agent.0'/>\n</channel>\n"@
}

/// The platform-specific device block.
pub open spec fn platform_devices(p: Platform) -> Seq<char> {
    match p {
        Platform::MacOS =>
            "<controller type='usb' model='qemu-xhci'/>\n<input type='keyboard' bus='virtio'/>\n<input type='mouse' bus='virtio'/>\n<graphics type='cocoa'/>\n"@,
        Platform::Windows =>
            "<features>\n<hyperv>\n<relaxed state='on'/>\n<vapic state='on'/>\n<spinlocks state='on' retries='8191'/>\n</hyperv>\n</features>\n<video>\n<model type='qxl' ram='65536' vram='65536'/>\n</video>\n"@,
        _ => "<video>\n<model type='virtio'/>\n</video>\n"@,
    }
}

/// The passthrough host-device block for a device address of the shape
/// `bus:slot:function`.
pub open spec fn hostdev_of(gpu_id: Seq<char>) -> Seq<char> {
    let parts = spec_split(gpu_id, ':');
    "<hostdev mode='subsystem' type='pci' managed='yes'>\n<source>\n<address domain='0x0000' bus='"@
        + parts[0] + "' slot='"@ + parts[1] + "' function='"@ + strip_dot_zero(parts[2])
        + "'/>\n</source>\n</hostdev>\n"@
}

/// The whole device block of a configuration whose passthrough address,
/// if any, has the three-part shape.
pub open spec fn devices_xml_of(p: Platform, gpu: Option<Seq<char>>) -> Seq<char> {
    common_devices() + platform_devices(p) + (match gpu {
        None => Seq::empty(),
        Some(id) => hostdev_of(id),
    }) + "</devices>"@
}

/// The passthrough device address of a configuration, if one is set.
pub open spec fn gpu_id_of(c: VMConfig) -> Option<Seq<char>> {
    match c.gpu_passthrough {
        Some(g) => Some(g.gpu_id@),
        None => None,
    }
}

/// The whole domain description of a configuration.
pub open spec fn vm_xml_of(c: VMConfig) -> Seq<char> {
    "<domain type='kvm'>\n<name>"@ + c.name@ + "</name>\n<memory unit='KiB'>"@ + spec_u64_string(
        c.memory_kb as int,
    ) + "</memory>\n<vcpu placement='static'>"@ + spec_u64_string(c.vcpus as int)
        + "</vcpu>\n<os>\n<type arch='"@ + arch_of(c.host_platform) + "' machine='"@ + machine_of(
        c.host_platform,
    ) + "'>hvm</type>\n<boot dev='hd'/>\n</os>\n"@ + devices_xml_of(
        c.host_platform,
        gpu_id_of(c),
    ) + "</domain>\n"@
}

/// A configuration renders cleanly when its passthrough address, if any,
/// splits into exactly bus, slot and function.
pub open spec fn renders(c: VMConfig) -> bool {
    match c.gpu_passthrough {
        None => true,
        Some(g) => spec_split(g.gpu_id@, ':').len() == 3,
    }
}

impl VMConfig {
    /// A configuration with the engine's defaults: the disk image lives
    /// under the host image directory as `<name>.qcow2`, twenty GB large;
    /// no passthrough device; rendering for a Linux host until the
    /// embedding layer says otherwise.
    pub fn new(name: &str, memory_gb: u64, vcpus: u32) -> (r: VMConfig)
        requires
            memory_gb as int * 1024 * 1024 <= u64::MAX as int,
        ensures
            r.name@ == name@,
            r.memory_kb == memory_gb * 1024 * 1024,
            r.vcpus == vcpus,
            r.disk_path@ == "/var/lib/libvirt/images/"@ + name@ + ".qcow2"@,
            r.disk_size_gb == 20,
            r.gpu_passthrough is None,
            r.host_platform == Platform::Linux,
    {
        let mut disk_path = String::from_str("/var/lib/libvirt/images/");
        disk_path.append(name);
        disk_path.append(".qcow2");
        VMConfig {
            name: name.to_owned(),
            memory_kb: memory_gb * 1024 * 1024,
            vcpus,
            disk_path,
            disk_size_gb: 20,
            gpu_passthrough: None,
            host_platform: Platform::Linux,
        }
    }

    /// The device block of this configuration; an ill-shaped passthrough
    /// address is refused by name.
    pub fn platform_specific_devices(&self) -> (r: Result<String, VmError>)
        ensures
            match r {
                Ok(s) => renders(*self) && s@ == devices_xml_of(self.host_platform, gpu_id_of(*self)),
                Err(VmError::CreationError { .. }) => !renders(*self),
                _ => false,
            },
    {
        let mut devices = String::from_str(
            "<devices>\n<console type='pty'/>\n<channel type='unix'>\n<target type='virtio' name='org.qemu.guest_agent.0'/>\n</channel>\n",
        );
        match self.host_platform {
            Platform::MacOS => {
                devices.append(
                    "<controller type='usb' model='qemu-xhci'/>\n<input type='keyboard' bus='virtio'/>\n<input type='mouse' bus='virtio'/>\n<graphics type='cocoa'/>\n",
                );
            },
            Platform::Windows => {
                devices.append(
                    "<features>\n<hyperv>\n<relaxed state='on'/>\n<vapic state='on'/>\n<spinlocks state='on' retries='8191'/>\n</hyperv>\n</features>\n<video>\n<model type='qxl' ram='65536' vram='65536'/>\n</video>\n",
                );
            },
            _ => {
                devices.append("<video>\n<model type='virtio'/>\n</video>\n");
            },
        }
        match &self.gpu_passthrough {
            None => {},
            Some(gpu) => {
                let parts = split_char(gpu.gpu_id.as_str(), ':');
                if parts.len() != 3 {
                    proof {
                        assert(crate::utils::views_of(parts@).len() == parts@.len());
                    }
                    return Err(
                        VmError::CreationError {
                            message: String::from_str("Invalid PCI address format"),
                            vm_name: self.name.clone(),
                        },
                    );
                }
                proof {
                    assert(crate::utils::views_of(parts@)[0] == parts@[0]@);
                    assert(crate::utils::views_of(parts@)[1] == parts@[1]@);
                    assert(crate::utils::views_of(parts@)[2] == parts@[2]@);
                }
                devices.append(
                    "<hostdev mode='subsystem' type='pci' managed='yes'>\n<source>\n<address domain='0x0000' bus='",
                );
                devices.append(parts[0].as_str());
                devices.append("' slot='");
                devices.append(parts[1].as_str());
                devices.append("' function='");
                let function = strip_dot_zero_str(parts[2].as_str());
                devices.append(function);
                devices.append("'/>\n</source>\n</hostdev>\n");
            },
        }
        devices.append("</devices>");
        proof {
            assert(devices@ =~= devices_xml_of(self.host_platform, gpu_id_of(*self)));
        }
        Ok(devices)
    }

    /// The whole domain description; an ill-shaped passthrough address is
    /// refused by name.
    pub fn to_xml(&self) -> (r: Result<String, VmError>)
        ensures
            match r {
                Ok(s) => renders(*self) && s@ == vm_xml_of(*self),
                Err(VmError::CreationError { .. }) => !renders(*self),
                _ => false,
            },
    {
        let devices = match self.platform_specific_devices() {
            Ok(d) => d,
            Err(e) => {
                return Err(e);
            },
        };
        let mut xml = String::from_str("<domain type='kvm'>\n<name>");
        xml.append(self.name.as_str());
        xml.append("</name>\n<memory unit='KiB'>");
        let memory = u64_to_string(self.memory_kb);
        xml.append(memory.as_str());
        xml.append("</memory>\n<vcpu placement='static'>");
        let vcpus = u64_to_string(self.vcpus as u64);
        xml.append(vcpus.as_str());
        xml.append("</vcpu>\n<os>\n<type arch='");
        match self.host_platform {
            Platform::MacOS => xml.append("aarch64"),
            _ => xml.append("x86_64"),
        }
        xml.append("' machine='");
        match self.host_platform {
            Platform::MacOS => xml.append("virt"),
            _ => xml.append("pc-q35-6.2"),
        }
        xml.append("'>hvm</type>\n<boot dev='hd'/>\n</os>\n");
        xml.append(devices.as_str());
        xml.append("</domain>\n");
        proof {
            assert(xml@ =~= vm_xml_of(*self));
        }
        Ok(xml)
    }
}

impl VirtualMachine {
    /// Memory statistics: usage in MB, then in KB.
    pub fn memory_stats(&self) -> (r: Result<Vec<u64>, VmError>)
        requires
            self.resources.memory_usage_mb <= u64::MAX / 1024,
        ensures
            r is Ok,
            r->Ok_0@ == seq![
                self.resources.memory_usage_mb,
                (self.resources.memory_usage_mb * 1024) as u64,
            ],
    {
        let mut v: Vec<u64> = Vec::new();
        v.push(self.resources.memory_usage_mb);
        v.push(self.resources.memory_usage_mb * 1024);
        proof {
            assert(v@ =~= seq![
                self.resources.memory_usage_mb,
                (self.resources.memory_usage_mb * 1024) as u64,
            ]);
        }
        Ok(v)
    }

    /// vCPU statistics: current usage reading, then the vCPU count.
    pub fn vcpu_stats(&self) -> (r: Result<Vec<u64>, VmError>)
        ensures
            r is Ok,
            r->Ok_0@ == seq![self.resources.cpu_usage_centipercent, self.vcpus as u64],
    {
        let mut v: Vec<u64> = Vec::new();
        v.push(self.resources.cpu_usage_centipercent);
        v.push(self.vcpus as u64);
        proof {
            assert(v@ =~= seq![self.resources.cpu_usage_centipercent, self.vcpus as u64]);
        }
        Ok(v)
    }
}

} // verus!
