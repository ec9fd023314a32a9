[package]
name = "rustci_core"
version = "0.1.0"
edition = "2021"
publish = false

[dependencies]
uuid = { version = "=1.29.0", features = ["v4", "serde"] }
chrono = { version = "=0.4.45", features = ["serde"] }
fastrand = "=2.5.0"
rand = "=0.8.8"
serde = { version = "=1.0.229", features = ["derive"] }
serde_json = "=1.0.154"
tokio = { version = "=1.54.1", features = ["rt-multi-thread", "sync", "time", "macros"] }
tracing = "=0.1.44"
async-trait = "=0.1.92"
dashmap = "=5.5.3"
moka = { version = "0.12", features = ["future"] }
sysinfo = "0.29"
hostname = "0.3"
tokio-util = "0.7"
tracing-subscriber = { version = "0.3", features = ["env-filter", "json", "chrono"] }
axum = "0.7"
metrics-exporter-prometheus = "0.12"
