[package]
name = "kvbm"
version = "0.1.0"
edition = "2021"
publish = false

[dependencies]
dynamo-tokens = "*"
kvbm-common = "*"
kvbm-config = "*"
kvbm-physical = "*"
velo = "*"
velo-ext = "*"
anyhow = "1"
axum = "*"
dashmap = "6"
futures = "0.3"
parking_lot = "0.12"
serde = { version = "1", features = ["derive"] }
serde_json = "1"
thiserror = "2"
tokio = { version = "1", features = ["full"] }
tokio-util = "0.7"
tracing = "0.1"
url = "2"
uuid = { version = "1", features = ["v4", "serde"] }
