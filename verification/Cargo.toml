[package]
name = "gpu_share_vm_manager"
version = "0.1.0"
edition = "2021"
publish = false

[dependencies]
uuid = { version = "*", features = ["v4"] }
clap = { version = "*", features = ["derive"] }
tokio = { version = "*", features = ["full"] }
anyhow = "*"
glob = "*"
tracing = "*"
tracing-subscriber = "*"
serde = { version = "*", features = ["derive"] }
serde_json = "*"
chrono = "*"
thiserror = "*"
nvml-wrapper = "*"
