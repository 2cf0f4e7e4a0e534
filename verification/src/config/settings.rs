//! The layered settings the embedding layer loads from files and the
//! environment, and the defaults that stand before any layer applies.

use vstd::prelude::*;

verus! {

/// All settings together.
#[derive(Debug, Clone)]
pub struct Settings {
    pub server: ServerSettings,
    pub libvirt: LibvirtSettings,
    pub monitoring: MonitoringSettings,
    pub storage: StorageSettings,
    pub rate_limits: RateLimitSettings,
}

/// Where the API serves.
#[derive(Debug, Clone)]
pub struct ServerSettings {
    pub host: String,
    pub port: u16,
    pub api_prefix: String,
}

/// How the VM backend is reached and bounded.
#[derive(Debug, Clone)]
pub struct LibvirtSettings {
    pub connection_uri: String,
    pub max_vms: u32,
    pub default_memory_mb: u64,
    pub default_vcpus: u32,
}

/// Sampling cadence and retention.
#[derive(Debug, Clone, Copy, PartialEq, Eq, Structural)]
pub struct MonitoringSettings {
    pub metrics_interval_seconds: u64,
    pub retention_hours: u64,
    pub enable_gpu_metrics: bool,
}

/// Where VM images live and how much they may take.
#[derive(Debug, Clone)]
pub struct StorageSettings {
    pub vm_image_path: String,
    pub max_storage_gb: u64,
}

/// Request budgets per minute, by surface.
#[derive(Debug, Clone, Copy, PartialEq, Eq, Structural)]
pub struct RateLimitSettings {
    pub api_requests_per_minute: u32,
    pub gpu_requests_per_minute: u32,
    pub auth_requests_per_minute: u32,
}

impl Default for RateLimitSettings {
    /// The standing budgets: a hundred API calls, thirty GPU operations
    /// and ten authentication attempts per minute.
    fn default() -> (r: RateLimitSettings)
        ensures
            r == (RateLimitSettings {
                api_requests_per_minute: 100,
                gpu_requests_per_minute: 30,
                auth_requests_per_minute: 10,
            }),
    {
        RateLimitSettings {
            api_requests_per_minute: 100,
            gpu_requests_per_minute: 30,
            auth_requests_per_minute: 10,
        }
    }
}

/// The settings that stand before any configuration layer applies.
pub fn generate_default_config() -> (r: Settings)
    ensures
        r.server.host@ == "127.0.0.1"@,
        r.server.port == 3000,
        r.server.api_prefix@ == "/api/v1"@,
        r.libvirt.connection_uri@ == "qemu:///system"@,
        r.libvirt.max_vms == 10,
        r.libvirt.default_memory_mb == 4096,
        r.libvirt.default_vcpus == 2,
        r.monitoring.metrics_interval_seconds == 5,
        r.monitoring.retention_hours == 24,
        r.monitoring.enable_gpu_metrics,
        r.storage.vm_image_path@ == "/var/lib/gpu-share/images"@,
        r.storage.max_storage_gb == 100,
        r.rate_limits == (RateLimitSettings {
            api_requests_per_minute: 100,
            gpu_requests_per_minute: 30,
            auth_requests_per_minute: 10,
        }),
{
    Settings {
        server: ServerSettings {
            host: String::from_str("127.0.0.1"),
            port: 3000,
            api_prefix: String::from_str("/api/v1"),
        },
        libvirt: LibvirtSettings {
            connection_uri: String::from_str("qemu:///system"),
            max_vms: 10,
            default_memory_mb: 4096,
            default_vcpus: 2,
        },
        monitoring: MonitoringSettings {
            metrics_interval_seconds: 5,
            retention_hours: 24,
            enable_gpu_metrics: true,
        },
        storage: StorageSettings {
            vm_image_path: String::from_str("/var/lib/gpu-share/images"),
            max_storage_gb: 100,
        },
        rate_limits: RateLimitSettings {
            api_requests_per_minute: 100,
            gpu_requests_per_minute: 30,
            auth_requests_per_minute: 10,
        },
    }
}

} // verus!
