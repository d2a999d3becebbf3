[package]
name = "torrential"
version = "0.1.0"
edition = "2021"
publish = false

[dependencies]
aes = "=0.8.4"
ctr = "=0.9.2"
dashmap = "=6.2.1"
uuid = { version = "=1.29.0", features = ["v4"] }
anyhow = "=1.0.104"
axum = "=0.8.9"
bytes = "=1.12.1"
droplet-rs = "=0.15.1"
file_open_limit = "=0.0.5"
futures-util = "=0.3.34"
log = "=0.4.34"
num_cpus = "=1.17.0"
reqwest = { version = "0.12", default-features = false }
serde = { version = "=1.0.229", features = ["derive"] }
serde_json = "=1.0.154"
simple_logger = "=5.2.0"
tokio = { version = "=1.54.1", features = ["full"] }
tokio-util = { version = "=0.7.20", features = ["io"] }
waitmap = "=1.1.0"
