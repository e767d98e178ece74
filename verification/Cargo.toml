[package]
name = "taraference"
version = "0.2.0"
edition = "2021"
publish = false

[dependencies]
anyhow = "=1.0.104"
axum = "=0.7.9"
byteorder = "=1.5.0"
clap = { version = "=4.6.7", features = ["derive"] }
cudarc = { version = "0.19", default-features = false, features = ["std", "driver", "nvrtc", "dynamic-loading", "cuda-12060"] }
memmap2 = "=0.9.12"
serde = { version = "=1.0.229", features = ["derive"] }
serde_json = "=1.0.154"
thiserror = "=1.0.69"
tokio = { version = "=1.54.1", features = ["rt-multi-thread", "macros", "net", "signal", "sync"] }
tokio-stream = "=0.1.19"
tower-http = { version = "=0.6.11", features = ["cors", "trace"] }
tracing = "=0.1.44"
ureq = "=2.12.1"
uuid = { version = "=1.29.0", features = ["v4"] }
