use gpu_share_vm_manager::gpu::device::GPUConfig;
use gpu_share_vm_manager::host::resource_manager::ResourceManager;
use gpu_share_vm_manager::host::vm::{VMConfig, VMResources, VMStatus};
use gpu_share_vm_manager::utils::os::Platform;

#[test]
fn test_vm_config_creation() {
    let config = VMConfig::new("test-vm", 4, 2);
    assert_eq!(config.memory_kb, 4 * 1024 * 1024);
    assert!(config.disk_path.contains("test-vm"));
}

#[test]
fn test_vm_status_conversion() {
    assert_eq!(VMStatus::from(1), VMStatus::Running);
    assert_eq!(VMStatus::from(5), VMStatus::Crashed);
    assert_eq!(VMStatus::from(99), VMStatus::Unknown);
}

#[test]
fn test_xml_generation() {
    let config = VMConfig::new("test-xml", 2, 1);
    let xml = config.to_xml().unwrap();
    assert!(xml.contains("test-xml"));
    assert!(xml.contains("KiB"));
}

#[test]
fn xml_carries_memory_and_vcpus() {
    let config = VMConfig::new("box", 2, 3);
    let xml = config.to_xml().unwrap();
    assert!(xml.contains("<memory unit='KiB'>2097152</memory>"));
    assert!(xml.contains("<vcpu placement='static'>3</vcpu>"));
    assert!(xml.contains("arch='x86_64'"));
    assert!(xml.contains("machine='pc-q35-6.2'"));
}

#[test]
fn xml_embeds_passthrough_device() {
    let mut config = VMConfig::new("gpu-box", 1, 1);
    config.gpu_passthrough = Some(GPUConfig {
        gpu_id: "0x01:0x00:0x0.0".to_string(),
        iommu_group: 42,
    });
    let xml = config.to_xml().unwrap();
    assert!(xml.contains("bus='0x01'"));
    assert!(xml.contains("slot='0x00'"));
    assert!(xml.contains("function='0x0'"));
    assert!(xml.contains("<hostdev mode='subsystem' type='pci' managed='yes'>"));
}

#[test]
fn xml_rejects_bad_passthrough_address() {
    let mut config = VMConfig::new("bad-gpu-box", 1, 1);
    config.gpu_passthrough = Some(GPUConfig {
        gpu_id: "0000:01".to_string(),
        iommu_group: 7,
    });
    assert!(config.to_xml().is_err());
    assert!(config.platform_specific_devices().is_err());
}

#[test]
fn xml_for_macos_uses_its_machine_type() {
    let mut config = VMConfig::new("mac-box", 1, 1);
    config.host_platform = Platform::MacOS;
    let xml = config.to_xml().unwrap();
    assert!(xml.contains("arch='aarch64'"));
    assert!(xml.contains("machine='virt'"));
    assert!(xml.contains("graphics type='cocoa'"));
}

#[test]
fn vm_default_resources_are_zero() {
    let r = VMResources::default();
    assert_eq!(r.cpu_usage_centipercent, 0);
    assert_eq!(r.memory_usage_mb, 0);
    assert_eq!(r.network_rx, 0);
    assert!(r.gpu_usage_centipercent.is_none());
}

#[test]
fn vm_stats_report_usage() {
    let vm = gpu_share_vm_manager::host::vm::VirtualMachine {
        id: "vm-1".to_string(),
        name: "vm-1".to_string(),
        status: VMStatus::Running,
        resources: VMResources {
            cpu_usage_centipercent: 2500,
            memory_usage_mb: 512,
            disk_usage_centipercent: 0,
            network_rx: 0,
            network_tx: 0,
            gpu_usage_centipercent: None,
        },
        host_platform: Platform::Linux,
        vcpus: 4,
        memory_kb: 1048576,
    };
    assert_eq!(vm.memory_stats().unwrap(), vec![512, 512 * 1024]);
    assert_eq!(vm.vcpu_stats().unwrap(), vec![2500, 4]);
}

#[test]
fn quota_check_enforces_limits() {
    let manager = ResourceManager::new();
    let small = VMConfig::new("small", 4, 2);
    assert!(manager.check_quota("alice", &small).is_ok());
    let mut huge = VMConfig::new("huge", 4, 2);
    huge.memory_kb = manager.max_memory_kb + 1;
    assert!(manager.check_quota("alice", &huge).is_err());
    let mut wide = VMConfig::new("wide", 4, 2);
    wide.vcpus = manager.max_vcpus + 1;
    assert!(manager.check_quota("alice", &wide).is_err());
}
