use gpu_share_vm_manager::errors::{GpuError, GpuShareError};
use gpu_share_vm_manager::gpu::device::{GPUManager, GroupMember, ScanEntry};
use gpu_share_vm_manager::gpu::passthrough::{
    HostAction, HostEvent, PassthroughManager, PassthroughState, VfioGroup, check_iommu_support,
};
use gpu_share_vm_manager::gpu::virtual_gpu::GPUPool;

fn ready_inventory() -> GPUManager {
    let mut inventory = GPUManager::new();
    let entries = vec![
        ScanEntry {
            address: "0000:01:00.0".to_string(),
            vendor_id: Some("10de".to_string()),
            model: Some("Test GPU".to_string()),
            class_code: 0x030000,
            iommu_group: Some(1),
            vram_mb: Some(8192),
            driver_version: Some("510.00".to_string()),
        },
        ScanEntry {
            address: "0000:02:00.0".to_string(),
            vendor_id: Some("1002".to_string()),
            model: Some("Other GPU".to_string()),
            class_code: 0x030000,
            iommu_group: Some(2),
            vram_mb: Some(4096),
            driver_version: None,
        },
        ScanEntry {
            address: "0000:03:00.0".to_string(),
            vendor_id: Some("8086".to_string()),
            model: Some("Bridge neighbour".to_string()),
            class_code: 0x060400,
            iommu_group: Some(2),
            vram_mb: None,
            driver_version: None,
        },
    ];
    inventory.detect_gpus(&entries);
    inventory.build_iommu_groups(&entries);
    inventory
}

#[test]
fn passthrough_happy_path_reaches_attached() {
    let inventory = ready_inventory();
    let mut pool = GPUPool::new();
    pool.allocate("alice", 0).unwrap();
    let mut manager = PassthroughManager::new(true).unwrap();

    let a = manager
        .prepare_gpu_passthrough("0000:01:00.0", "alice", &pool, 0, &inventory)
        .unwrap();
    assert!(matches!(a, HostAction::ReadDriver));

    let a = manager
        .advance("0000:01:00.0", &HostEvent::DriverRead("nvidia".to_string()))
        .unwrap();
    match a {
        HostAction::UnbindDriver(d) => assert_eq!(d, "nvidia"),
        _ => panic!("expected an unbind action"),
    }

    let a = manager.advance("0000:01:00.0", &HostEvent::UnbindOk).unwrap();
    assert!(matches!(a, HostAction::BindAltDriver));

    let a = manager.advance("0000:01:00.0", &HostEvent::BindOk).unwrap();
    assert!(matches!(a, HostAction::VerifyDevice));

    let a = manager
        .advance(
            "0000:01:00.0",
            &HostEvent::Verified {
                driver: "vfio-pci".to_string(),
                power_state: "D0".to_string(),
                has_memory_bar: true,
            },
        )
        .unwrap();
    assert!(matches!(a, HostAction::CompleteAttach));

    let a = manager.advance("0000:01:00.0", &HostEvent::AttachOk).unwrap();
    assert!(matches!(a, HostAction::Finished));
    assert_eq!(manager.sessions[0].state, PassthroughState::Attached);
}

#[test]
fn rollback_restores_the_recorded_driver() {
    // Forcing failure at the verified step: the next action rebinds
    // exactly the driver read before the switch, the session is released,
    // and the allocation record is exactly what it was before prepare.
    let inventory = ready_inventory();
    let mut pool = GPUPool::new();
    pool.allocate("alice", 0).unwrap();
    let owner_before = pool.gpus[0].allocated_to.clone();

    let mut manager = PassthroughManager::new(true).unwrap();
    manager
        .prepare_gpu_passthrough("0000:01:00.0", "alice", &pool, 0, &inventory)
        .unwrap();
    manager
        .advance("0000:01:00.0", &HostEvent::DriverRead("nouveau".to_string()))
        .unwrap();
    manager.advance("0000:01:00.0", &HostEvent::UnbindOk).unwrap();
    manager.advance("0000:01:00.0", &HostEvent::BindOk).unwrap();
    manager
        .advance(
            "0000:01:00.0",
            &HostEvent::Verified {
                driver: "vfio-pci".to_string(),
                power_state: "D0".to_string(),
                has_memory_bar: true,
            },
        )
        .unwrap();

    let a = manager
        .advance(
            "0000:01:00.0",
            &HostEvent::StepFailed("sandbox refused the device".to_string()),
        )
        .unwrap();
    match a {
        HostAction::RebindOriginal(d) => assert_eq!(d, "nouveau"),
        _ => panic!("expected a rebind of the original driver"),
    }
    assert_eq!(manager.sessions[0].state, PassthroughState::RollingBack);

    let a = manager.advance("0000:01:00.0", &HostEvent::RebindOk).unwrap();
    assert!(matches!(a, HostAction::Finished));
    assert!(manager.sessions.is_empty());
    assert_eq!(pool.gpus[0].allocated_to, owner_before);
}

#[test]
fn failed_verification_rolls_back() {
    let inventory = ready_inventory();
    let mut pool = GPUPool::new();
    pool.allocate("alice", 0).unwrap();
    let mut manager = PassthroughManager::new(true).unwrap();
    manager
        .prepare_gpu_passthrough("0000:01:00.0", "alice", &pool, 0, &inventory)
        .unwrap();
    manager
        .advance("0000:01:00.0", &HostEvent::DriverRead("nvidia".to_string()))
        .unwrap();
    manager.advance("0000:01:00.0", &HostEvent::UnbindOk).unwrap();
    manager.advance("0000:01:00.0", &HostEvent::BindOk).unwrap();
    let a = manager
        .advance(
            "0000:01:00.0",
            &HostEvent::Verified {
                driver: "vfio-pci".to_string(),
                power_state: "D3hot".to_string(),
                has_memory_bar: true,
            },
        )
        .unwrap();
    match a {
        HostAction::RebindOriginal(d) => assert_eq!(d, "nvidia"),
        _ => panic!("expected a rebind of the original driver"),
    }
}

#[test]
fn prepare_requires_an_allocation() {
    let inventory = ready_inventory();
    let pool = GPUPool::new();
    let mut manager = PassthroughManager::new(true).unwrap();
    match manager.prepare_gpu_passthrough("0000:01:00.0", "alice", &pool, 0, &inventory) {
        Err(GpuShareError::GpuError(GpuError::NotAllocated { gpu_id })) => {
            assert_eq!(gpu_id, "0000:01:00.0");
        }
        other => panic!("expected NotAllocated, got {:?}", other),
    }
    assert!(manager.sessions.is_empty());
}

#[test]
fn prepare_refuses_an_unsafe_group() {
    let inventory = ready_inventory();
    let mut pool = GPUPool::new();
    pool.allocate("alice", 1).unwrap();
    let mut manager = PassthroughManager::new(true).unwrap();
    match manager.prepare_gpu_passthrough("0000:02:00.0", "alice", &pool, 1, &inventory) {
        Err(GpuShareError::GpuError(GpuError::IommuError { message, .. })) => {
            assert_eq!(message, "2");
        }
        other => panic!("expected an isolation refusal, got {:?}", other),
    }
}

#[test]
fn prepare_refuses_a_second_session() {
    let inventory = ready_inventory();
    let mut pool = GPUPool::new();
    pool.allocate("alice", 0).unwrap();
    let mut manager = PassthroughManager::new(true).unwrap();
    manager
        .prepare_gpu_passthrough("0000:01:00.0", "alice", &pool, 0, &inventory)
        .unwrap();
    match manager.prepare_gpu_passthrough("0000:01:00.0", "alice", &pool, 0, &inventory) {
        Err(GpuShareError::GpuError(GpuError::AlreadyInUse { .. })) => {}
        other => panic!("expected AlreadyInUse, got {:?}", other),
    }
}

#[test]
fn manager_needs_isolation_support() {
    match PassthroughManager::new(false) {
        Err(GpuShareError::GpuError(GpuError::IommuError { .. })) => {}
        other => panic!("expected an isolation refusal, got {:?}", other),
    }
}

#[test]
fn detach_is_idempotent_and_rolls_back() {
    let inventory = ready_inventory();
    let mut pool = GPUPool::new();
    pool.allocate("alice", 0).unwrap();
    let mut manager = PassthroughManager::new(true).unwrap();
    assert!(matches!(manager.detach("0000:01:00.0").unwrap(), HostAction::Finished));

    manager
        .prepare_gpu_passthrough("0000:01:00.0", "alice", &pool, 0, &inventory)
        .unwrap();
    manager
        .advance("0000:01:00.0", &HostEvent::DriverRead("nvidia".to_string()))
        .unwrap();
    let a = manager.detach("0000:01:00.0").unwrap();
    match a {
        HostAction::RebindOriginal(d) => assert_eq!(d, "nvidia"),
        _ => panic!("expected a rebind of the original driver"),
    }
    manager.advance("0000:01:00.0", &HostEvent::RebindOk).unwrap();
    assert!(manager.sessions.is_empty());
    assert!(matches!(manager.detach("0000:01:00.0").unwrap(), HostAction::Finished));
}

#[test]
fn boot_log_decides_isolation_support() {
    assert!(check_iommu_support("DMAR: IOMMU enabled\nmore lines"));
    assert!(check_iommu_support("AMD-Vi enabled"));
    assert!(!check_iommu_support("nothing of note"));
    assert!(!check_iommu_support(""));
}

#[test]
fn vfio_group_membership_is_deduplicated() {
    let mut group = VfioGroup::new(7).unwrap();
    assert_eq!(group.group_id, 7);
    group.add_device("0000:01:00.0".to_string()).unwrap();
    group.add_device("0000:01:00.1".to_string()).unwrap();
    group.add_device("0000:01:00.0".to_string()).unwrap();
    assert_eq!(group.devices.len(), 2);
}

#[test]
fn vfio_group_viability_follows_classes() {
    let classes = vec![
        GroupMember { address: "0000:01:00.0".to_string(), class_code: 0x030000 },
        GroupMember { address: "0000:01:00.1".to_string(), class_code: 0x040300 },
        GroupMember { address: "0000:02:00.0".to_string(), class_code: 0x060400 },
    ];
    let mut good = VfioGroup::new(1).unwrap();
    good.add_device("0000:01:00.0".to_string()).unwrap();
    good.add_device("0000:01:00.1".to_string()).unwrap();
    assert_eq!(good.is_viable(&classes).unwrap(), true);

    let mut bad = VfioGroup::new(2).unwrap();
    bad.add_device("0000:01:00.0".to_string()).unwrap();
    bad.add_device("0000:02:00.0".to_string()).unwrap();
    assert_eq!(bad.is_viable(&classes).unwrap(), false);

    let mut unknown = VfioGroup::new(3).unwrap();
    unknown.add_device("0000:09:00.0".to_string()).unwrap();
    assert!(unknown.is_viable(&classes).is_err());
}
