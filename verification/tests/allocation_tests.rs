use gpu_share_vm_manager::gpu::virtual_gpu::{AllocationError, GPUPool, Quota};

#[test]
fn allocate_returns_exact_cost() {
    // A device with 8192 MB of VRAM and 32 compute units, at the standing
    // rates, costs exactly 883 credits.
    let mut pool = GPUPool::new();
    let cost = pool.allocate("alice", 0).unwrap();
    assert_eq!(cost, 883);
}

#[test]
fn allocate_is_exclusive() {
    // Of many racing claims on one device, exactly one wins; the rest see
    // AlreadyAllocated and the device ends with exactly one record.
    let mut pool = GPUPool::new();
    let mut successes = 0;
    for i in 0..10 {
        let user = format!("user{}", i);
        match pool.allocate(&user, 0) {
            Ok(_) => successes += 1,
            Err(e) => assert_eq!(e, AllocationError::AlreadyAllocated(0)),
        }
    }
    assert_eq!(successes, 1);
    let owners: Vec<_> = pool
        .gpus
        .iter()
        .filter(|g| g.id == 0 && g.allocated_to.is_some())
        .collect();
    assert_eq!(owners.len(), 1);
    assert_eq!(owners[0].allocated_to.as_deref(), Some("user0"));
}

#[test]
fn release_then_allocate_succeeds() {
    let mut pool = GPUPool::new();
    pool.allocate("alice", 0).unwrap();
    pool.release(0).unwrap();
    let cost = pool.allocate("bob", 0).unwrap();
    assert_eq!(cost, 883);
    assert!(pool.is_allocated_to(0, "bob"));
}

#[test]
fn repeated_allocation_costs_the_same() {
    let mut pool = GPUPool::new();
    let first = pool.allocate("alice", 1).unwrap();
    pool.release(1).unwrap();
    let second = pool.allocate("bob", 1).unwrap();
    assert_eq!(first, second);
    assert_eq!(first, 16384 / 10 + 64 * 2);
}

#[test]
fn allocate_unknown_device_fails() {
    let mut pool = GPUPool::new();
    assert_eq!(pool.allocate("alice", 99), Err(AllocationError::NotFound(99)));
}

#[test]
fn release_unknown_device_fails_known_device_is_idempotent() {
    let mut pool = GPUPool::new();
    assert_eq!(pool.release(99), Err(AllocationError::NotFound(99)));
    assert!(pool.release(0).is_ok());
    assert!(pool.release(0).is_ok());
}

#[test]
fn quota_refusal_leaves_consumer_untouched() {
    // With a one-device quota, the second claim is refused and the
    // consumer's count and footprint are exactly as before.
    let mut pool = GPUPool::new();
    pool.quota = Quota { max_gpus: 1, max_vram_mb: 1048576 };
    pool.allocate("alice", 0).unwrap();
    let before: Vec<_> = pool.get_allocated_gpus("alice");
    assert_eq!(pool.allocate("alice", 1), Err(AllocationError::QuotaExceeded(1)));
    let after: Vec<_> = pool.get_allocated_gpus("alice");
    assert_eq!(before.len(), after.len());
    assert_eq!(before.len(), 1);
    assert_eq!(before[0].id, after[0].id);
    assert_eq!(before[0].vram_mb, after[0].vram_mb);
}

#[test]
fn vram_quota_is_checked() {
    let mut pool = GPUPool::new();
    pool.quota = Quota { max_gpus: 8, max_vram_mb: 20000 };
    pool.allocate("alice", 0).unwrap(); // 8192 MB
    assert_eq!(pool.allocate("alice", 1), Err(AllocationError::QuotaExceeded(1)));
    // Another consumer still has the full budget.
    assert!(pool.allocate("bob", 1).is_ok());
}

#[test]
fn allocated_gpus_lists_only_the_owner() {
    let mut pool = GPUPool::new();
    pool.allocate("alice", 0).unwrap();
    pool.allocate("bob", 1).unwrap();
    let alice = pool.get_allocated_gpus("alice");
    assert_eq!(alice.len(), 1);
    assert_eq!(alice[0].id, 0);
    assert_eq!(alice[0].allocated_to.as_deref(), Some("alice"));
    let carol = pool.get_allocated_gpus("carol");
    assert!(carol.is_empty());
}
