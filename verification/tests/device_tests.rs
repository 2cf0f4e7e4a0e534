use gpu_share_vm_manager::gpu::device::{
    GPUError, GPUInfo, GPUManager, GroupMember, IsolationGroup, ScanEntry, is_gpu_device,
    parse_uevent,
};
use gpu_share_vm_manager::gpu::passthrough::memory_bar_present;

fn entry(address: &str, vendor: &str, class: u32, group: Option<u64>) -> ScanEntry {
    ScanEntry {
        address: address.to_string(),
        vendor_id: Some(vendor.to_string()),
        model: Some(format!("{} device", address)),
        class_code: class,
        iommu_group: group,
        vram_mb: Some(8192),
        driver_version: Some("510.00".to_string()),
    }
}

#[test]
fn test_list_devices() {
    let manager = GPUManager {
        devices: vec![
            GPUInfo {
                id: "mock-gpu-1".into(),
                vendor: "MockVendor".into(),
                model: "Test GPU X9000".into(),
                vram_mb: 16384,
                driver_version: "MockDriver 2.0".into(),
                metal_support: Some(true),
                vulkan_support: Some(true),
                directx_major: Some(12),
                iommu_group: Some(42),
            },
            GPUInfo {
                id: "mock-gpu-2".into(),
                vendor: "MockVendorPro".into(),
                model: "Test GPU Z10".into(),
                vram_mb: 32768,
                driver_version: "MockDriver Pro 3.0".into(),
                metal_support: Some(false),
                vulkan_support: Some(true),
                directx_major: Some(11),
                iommu_group: Some(24),
            },
        ],
        iommu_groups: vec![
            IsolationGroup {
                group_id: 42,
                devices: vec![GroupMember { address: "pci_0000_01_00_0".into(), class_code: 0x030000 }],
                viable: true,
            },
            IsolationGroup {
                group_id: 24,
                devices: vec![GroupMember { address: "pci_0000_02_00_0".into(), class_code: 0x030000 }],
                viable: true,
            },
        ],
    };
    let devices = manager.list_available_devices().unwrap();
    assert_eq!(devices.len(), 2);
    assert_eq!(devices[0].model, "Test GPU X9000");
    assert_eq!(devices[1].vram_mb, 32768);
}

#[test]
fn test_get_iommu_group() {
    let manager = GPUManager {
        devices: vec![
            GPUInfo {
                id: "mock-gpu-2".into(),
                vendor: "MockVendorPro".into(),
                model: "Test GPU Z10".into(),
                vram_mb: 32768,
                driver_version: "MockDriver Pro 3.0".into(),
                metal_support: Some(false),
                vulkan_support: Some(true),
                directx_major: Some(11),
                iommu_group: Some(24),
            },
        ],
        iommu_groups: vec![
            IsolationGroup {
                group_id: 24,
                devices: vec![GroupMember { address: "pci_0000_02_00_0".into(), class_code: 0x030000 }],
                viable: true,
            },
        ],
    };
    let group = manager.get_iommu_group("mock-gpu-2").unwrap();
    assert_eq!(group, Some(24));
}

#[test]
fn scan_filters_and_reads_candidates() {
    let mut manager = GPUManager::new();
    let entries = vec![
        entry("0000:01:00.0", " 10de ", 0x030000, Some(1)),
        entry("0000:02:00.0", "8086", 0x030000, None),
        entry("0000:03:00.0", "abcd", 0x030000, Some(2)), // unknown vendor
        ScanEntry {
            address: "0000:04:00.0".to_string(),
            vendor_id: None, // unreadable identity: skipped, not fatal
            model: Some("ghost".to_string()),
            class_code: 0x030000,
            iommu_group: Some(3),
            vram_mb: None,
            driver_version: None,
        },
    ];
    manager.detect_gpus(&entries);
    assert_eq!(manager.devices.len(), 2);
    assert_eq!(manager.devices[0].id, "0000:01:00.0");
    assert_eq!(manager.devices[0].vendor, "NVIDIA");
    assert_eq!(manager.devices[0].vram_mb, 8192);
    assert_eq!(manager.devices[1].vendor, "Intel");
    assert_eq!(manager.devices[1].iommu_group, None);
}

#[test]
fn groups_are_disjoint_and_viability_is_computed() {
    let mut manager = GPUManager::new();
    let entries = vec![
        entry("0000:01:00.0", "10de", 0x030000, Some(1)), // display in group 1
        entry("0000:01:00.1", "10de", 0x040300, Some(1)), // audio companion in group 1
        entry("0000:02:00.0", "1002", 0x030000, Some(2)), // display alone in group 2
        entry("0000:03:00.0", "8086", 0x060400, Some(2)), // a bridge joins group 2
    ];
    manager.build_iommu_groups(&entries);
    assert_eq!(manager.iommu_groups.len(), 2);

    // Every device address appears in exactly one group.
    let mut seen = Vec::new();
    for g in &manager.iommu_groups {
        for m in &g.devices {
            assert!(!seen.contains(&m.address));
            seen.push(m.address.clone());
        }
    }
    assert_eq!(seen.len(), 4);

    // A GPU with its audio function is viable; a GPU next to a bridge is not.
    assert_eq!(manager.iommu_groups[0].group_id, 1);
    assert!(manager.iommu_groups[0].viable);
    assert_eq!(manager.iommu_groups[1].group_id, 2);
    assert!(!manager.iommu_groups[1].viable);
}

#[test]
fn single_gpu_group_is_viable() {
    let mut manager = GPUManager::new();
    let entries = vec![entry("0000:05:00.0", "10de", 0x030000, Some(9))];
    manager.build_iommu_groups(&entries);
    assert_eq!(manager.iommu_groups.len(), 1);
    assert!(manager.iommu_groups[0].viable);
}

#[test]
fn validate_iommu_group_names_the_offender() {
    let mut manager = GPUManager::new();
    let entries = vec![
        entry("0000:01:00.0", "10de", 0x030000, Some(1)),
        entry("0000:02:00.0", "1002", 0x030000, Some(2)),
        entry("0000:03:00.0", "8086", 0x060400, Some(2)),
    ];
    manager.build_iommu_groups(&entries);
    assert!(manager.validate_iommu_group(1).is_ok());
    assert_eq!(
        manager.validate_iommu_group(2),
        Err(GPUError::UnsafeIommuGroup("2".to_string()))
    );
    assert_eq!(manager.validate_iommu_group(7), Err(GPUError::IommuGroupNotFound(7)));
}

#[test]
fn attach_gpu_checks_inventory_and_safety() {
    let mut manager = GPUManager::new();
    let entries = vec![
        entry("0000:01:00.0", "10de", 0x030000, Some(1)),
        entry("0000:02:00.0", "1002", 0x030000, Some(2)),
        entry("0000:03:00.0", "8086", 0x060400, Some(2)),
    ];
    manager.detect_gpus(&entries);
    manager.build_iommu_groups(&entries);
    assert!(manager.attach_gpu("sandbox-1", "0000:01:00.0").is_ok());
    assert_eq!(
        manager.attach_gpu("sandbox-1", "no-such-device"),
        Err(GPUError::NotFound)
    );
    assert_eq!(
        manager.attach_gpu("sandbox-1", "0000:02:00.0"),
        Err(GPUError::UnsafeIommuGroup("2".to_string()))
    );
}

#[test]
fn ungrouped_device_is_safe_only_alone() {
    let mut manager = GPUManager::new();
    let solo = vec![entry("0000:01:00.0", "10de", 0x030000, None)];
    manager.detect_gpus(&solo);
    manager.build_iommu_groups(&solo);
    assert!(manager.attach_gpu("sandbox-1", "0000:01:00.0").is_ok());

    let pair = vec![
        entry("0000:01:00.0", "10de", 0x030000, None),
        entry("0000:02:00.0", "1002", 0x030000, Some(2)),
    ];
    manager.detect_gpus(&pair);
    manager.build_iommu_groups(&pair);
    assert!(manager.attach_gpu("sandbox-1", "0000:01:00.0").is_err());
}

#[test]
fn gpu_vendor_matching_trims_blanks() {
    assert!(is_gpu_device("10de", "dev"));
    assert!(is_gpu_device("  1002\n", "dev"));
    assert!(is_gpu_device("\t8086 ", "dev"));
    assert!(!is_gpu_device("10df", "dev"));
    assert!(!is_gpu_device("", "dev"));
}

#[test]
fn mock_gpu_is_the_fixed_specimen() {
    let g = GPUInfo::mock();
    assert_eq!(g.id, "mock-gpu-1");
    assert_eq!(g.vendor, "NVIDIA");
    assert_eq!(g.vram_mb, 16384);
    assert_eq!(g.iommu_group, Some(42));
}

#[test]
fn uevent_records_are_parsed() {
    let text = "DRIVER=nouveau\nPCI_ID=10DE:2484\nPCI_SUBSYS_ID=1462:3909\nMODALIAS=pci:v000010DE:d00002484:sv\nodd line";
    let info = parse_uevent(text);
    assert_eq!(info.device_id, "10DE:2484");
    assert_eq!(info.subsystem_id, "1462:3909");
    assert_eq!(info.model, "d00002484");
    let empty = parse_uevent("");
    assert_eq!(empty.device_id, "");
}

#[test]
fn memory_regions_are_found_in_listings() {
    assert!(memory_bar_present("Region 0: Memory at f6000000\nRegion 1: I/O ports"));
    assert!(!memory_bar_present("Region 1: I/O ports at e000"));
    assert!(!memory_bar_present(""));
}
