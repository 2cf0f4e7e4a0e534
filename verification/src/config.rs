//! Top-level runtime configuration of the engine's surfaces.

use vstd::prelude::*;

pub mod settings;

verus! {

/// The whole configuration.
#[derive(Debug, Clone)]
pub struct Config {
    pub server: ServerConfig,
    pub metrics: MetricsConfig,
    pub rate_limits: RateLimitConfig,
}

/// Where the API listens.
#[derive(Debug, Clone)]
pub struct ServerConfig {
    pub host: String,
    pub port: u16,
}

/// How often samples are taken and how long they are kept.
#[derive(Debug, Clone, Copy, PartialEq, Eq, Structural)]
pub struct MetricsConfig {
    pub collection_interval_secs: u64,
    pub retention_hours: u64,
}

/// Request budgets per minute, by surface.
#[derive(Debug, Clone, Copy, PartialEq, Eq, Structural)]
pub struct RateLimitConfig {
    pub api_requests_per_minute: u32,
    pub gpu_requests_per_minute: u32,
    pub auth_requests_per_minute: u32,
}

} // verus!
