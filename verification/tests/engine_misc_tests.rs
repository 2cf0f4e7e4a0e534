use gpu_share_vm_manager::api::error::ErrorResponse as ApiErrorBody;
use gpu_share_vm_manager::api::middleware::rate_limit::RateLimitExceeded;
use gpu_share_vm_manager::api::routes::{ErrorNumber, ErrorResponse};
use gpu_share_vm_manager::billing::{BillingSystem, Transaction};
use gpu_share_vm_manager::cluster::{ClusterManager, NodeState};
use gpu_share_vm_manager::config::settings::{RateLimitSettings, generate_default_config};
use gpu_share_vm_manager::errors::{ErrorRecovery, GpuShareError, ResourceType, VmErrorRecovery, VmState};
use gpu_share_vm_manager::errors::handlers::ErrorHandler;
use gpu_share_vm_manager::gpu::utils::{check_iommu_support, get_gpu_vendor_info};
use gpu_share_vm_manager::host::errors::handlers::{CircuitBreaker, CircuitState};
use gpu_share_vm_manager::users::{UserError, UserManager};
use gpu_share_vm_manager::utils::os::{Platform, current_platform};
use gpu_share_vm_manager::utils::{parse_u64, split_char, trim_str, u64_to_string};
use std::cell::Cell;

#[test]
fn users_are_created_once_and_charged_exactly() {
    let mut users = UserManager::new();
    let alice = users.create_user("alice").unwrap();
    assert_eq!(alice.credits, 1_000_000);
    assert!(alice.allocated_gpus.is_empty());
    assert!(matches!(users.create_user("alice"), Err(UserError::AlreadyExists)));
    assert_eq!(users.users.len(), 1);
    assert_eq!(alice.id, users.users[0].user.id);

    users.deduct_credits("alice", 400).unwrap();
    let alice_after = users.get_user("alice");
    assert_eq!(alice_after.credits, 999_600);

    assert_eq!(
        users.deduct_credits("alice", 1_000_000),
        Err(UserError::InsufficientCredits { needed: 1_000_000, available: 999_600 })
    );
    // A charge against an unknown name opens the account first.
    users.deduct_credits("bob", 1).unwrap();
    assert_eq!(users.get_user("bob").credits, 999_999);
}

#[test]
fn balances_are_summed_per_consumer() {
    let mut billing = BillingSystem::new();
    let alice = uuid::Uuid::new_v4();
    let bob = uuid::Uuid::new_v4();
    billing.add_transaction(Transaction {
        user_id: alice,
        gpu_id: 0,
        start_time_secs: 100,
        duration_secs: 3600,
        cost: 883,
    });
    billing.add_transaction(Transaction {
        user_id: bob,
        gpu_id: 1,
        start_time_secs: 100,
        duration_secs: 60,
        cost: 1766,
    });
    billing.add_transaction(Transaction {
        user_id: alice,
        gpu_id: 1,
        start_time_secs: 200,
        duration_secs: 60,
        cost: 17,
    });
    assert_eq!(billing.get_user_balance(alice), 900);
    assert_eq!(billing.get_user_balance(bob), 1766);
    assert_eq!(billing.get_user_balance(uuid::Uuid::new_v4()), 0);
}

#[test]
fn retry_handler_forwards_outcomes() {
    let mut handler = ErrorHandler::new(3);
    let calls = Cell::new(0u32);
    let result: Result<u32, GpuShareError> = handler.handle(|| {
        calls.set(calls.get() + 1);
        Err(GpuShareError::SystemError("still down".to_string()))
    });
    assert!(result.is_err());
    assert_eq!(calls.get(), 3);

    let mut handler = ErrorHandler::new(3);
    let result: Result<u32, GpuShareError> = handler.handle(|| Ok(7));
    assert_eq!(result.unwrap(), 7);

    let mut handler = ErrorHandler::new(0);
    let result: Result<u32, GpuShareError> = handler.handle(|| Ok(7));
    assert!(result.is_err());
}

#[test]
fn circuit_breaker_opens_and_recovers() {
    let mut breaker = CircuitBreaker::new(2, 30);
    assert!(breaker.allow_request(0));
    breaker.record_failure(10);
    assert_eq!(breaker.state, CircuitState::Closed);
    breaker.record_failure(11);
    assert_eq!(breaker.state, CircuitState::Open);
    assert!(!breaker.allow_request(20));
    assert!(breaker.allow_request(41));
    breaker.begin_trial(41);
    assert_eq!(breaker.state, CircuitState::HalfOpen);
    breaker.record_success();
    assert_eq!(breaker.state, CircuitState::Closed);
    assert_eq!(breaker.failure_count, 0);
}

#[test]
fn vm_recovery_gives_up_after_three_attempts() {
    let fresh = VmErrorRecovery {
        vm_id: "vm-1".to_string(),
        last_known_state: VmState::Failed,
        recovery_attempts: 0,
    };
    assert!(fresh.recover().is_ok());
    assert!(fresh.rollback().is_ok());
    let worn = VmErrorRecovery { recovery_attempts: 3, ..fresh };
    assert!(worn.recover().is_err());
}

#[test]
fn resource_kinds_have_names() {
    assert_eq!(ResourceType::Memory.as_str(), "Memory");
    assert_eq!(ResourceType::Cpu.as_str(), "CPU");
    assert_eq!(ResourceType::Storage.as_str(), "Storage");
    assert_eq!(ResourceType::Network.as_str(), "Network");
}

#[test]
fn default_settings_are_fixed() {
    let s = generate_default_config();
    assert_eq!(s.server.host, "127.0.0.1");
    assert_eq!(s.server.port, 3000);
    assert_eq!(s.server.api_prefix, "/api/v1");
    assert_eq!(s.libvirt.max_vms, 10);
    assert_eq!(s.monitoring.retention_hours, 24);
    assert_eq!(s.storage.max_storage_gb, 100);
    let limits = RateLimitSettings::default();
    assert_eq!(limits.api_requests_per_minute, 100);
    assert_eq!(limits.gpu_requests_per_minute, 30);
    assert_eq!(limits.auth_requests_per_minute, 10);
}

#[test]
fn placement_picks_the_least_loaded_fitting_node() {
    let manager = ClusterManager {
        nodes: vec![
            NodeState { id: "n1".to_string(), available_resources: 10, current_load: 5 },
            NodeState { id: "n2".to_string(), available_resources: 100, current_load: 9 },
            NodeState { id: "n3".to_string(), available_resources: 100, current_load: 2 },
        ],
    };
    assert_eq!(manager.select_target_node(50), Some(2));
    assert_eq!(manager.select_target_node(5), Some(2));
    assert_eq!(manager.select_target_node(1000), None);
}

#[test]
fn platforms_are_recognized() {
    assert_eq!(current_platform("linux"), Platform::Linux);
    assert_eq!(current_platform("macos"), Platform::MacOS);
    assert_eq!(current_platform("windows"), Platform::Windows);
    assert_eq!(current_platform("plan9"), Platform::Unknown);
    assert!(Platform::Linux.supports_hardware_virtualization(false));
    assert!(Platform::MacOS.supports_hardware_virtualization(true));
    assert!(!Platform::MacOS.supports_hardware_virtualization(false));
    assert!(!Platform::Unknown.supports_hardware_virtualization(true));
}

#[test]
fn api_errors_carry_their_codes() {
    let r = ErrorResponse::new(ErrorNumber::ContainerNotFound, "gone".to_string());
    assert_eq!(r.code, 404);
    assert_eq!(r.error, "gone");
    assert_eq!(ErrorResponse::new(ErrorNumber::OperationFailed, String::new()).code, 400);
    assert_eq!(ErrorResponse::new(ErrorNumber::InternalError, String::new()).code, 500);
    assert_eq!(ErrorResponse::new(ErrorNumber::GPUTransferError, String::new()).code, 409);
    let body = ApiErrorBody::new(ErrorNumber::InternalError, "oops".to_string());
    assert_eq!(body.code, ErrorNumber::InternalError);
    assert_eq!(body.message, "oops");
    assert_eq!(RateLimitExceeded.message(), "Rate limit exceeded. Please try again later.");
}

#[test]
fn gpu_helpers_answer_plainly() {
    assert_eq!(check_iommu_support().unwrap(), true);
    assert_eq!(get_gpu_vendor_info("10de"), "NVIDIA (uwu)");
    assert_eq!(get_gpu_vendor_info("1002"), "AMD (owo)");
    assert_eq!(get_gpu_vendor_info("8086"), "Intel (^_^)");
    assert_eq!(get_gpu_vendor_info("dead"), "Unknown vendor");
}

#[test]
fn text_helpers_round_trip() {
    assert_eq!(trim_str("  spaced\tout \n"), "spaced\tout");
    assert_eq!(trim_str("plain"), "plain");
    assert_eq!(trim_str(" \t\n"), "");
    assert_eq!(parse_u64("0"), Some(0));
    assert_eq!(parse_u64("18446744073709551615"), Some(u64::MAX));
    assert_eq!(parse_u64("18446744073709551616"), None);
    assert_eq!(parse_u64(""), None);
    assert_eq!(parse_u64("12a"), None);
    assert_eq!(u64_to_string(0), "0");
    assert_eq!(u64_to_string(905), "905");
    assert_eq!(parse_u64(&u64_to_string(123456789)), Some(123456789));
    let parts = split_char("a:b::c", ':');
    assert_eq!(parts, vec!["a", "b", "", "c"]);
    assert_eq!(split_char("solo", ':'), vec!["solo"]);
}
