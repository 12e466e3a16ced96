[package]
name = "latency_probe"
version = "0.1.0"
edition = "2021"
publish = false

[dependencies]
clap = { version = "4", features = ["derive"] }
env_logger = "0.11"
futures = "0.3"
livekit = "*"
log = "0.4"
pollster = "*"
sysinfo = "*"
tokio = { version = "1", features = ["full"] }
