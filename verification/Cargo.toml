[package]
name = "mofa_studio"
version = "0.1.0"
edition = "2021"
publish = false

[dependencies]
serde = { version = "=1.0.229", features = ["derive"] }
serde_json = "=1.0.154"
dirs = "=5.0.1"
parking_lot = "=0.12.5"
crossbeam-channel = "=0.5.17"
regex = "=1.13.1"
tokio = { version = "=1.54.1", default-features = false, features = ["sync", "rt-multi-thread", "net", "time", "macros"] }
toml = "=0.8.23"
axum = { version = "=0.8.9", features = ["ws"] }
tower-http = { version = "=0.6.11", features = ["cors", "timeout"] }
futures = "=0.3.34"
log = "=0.4.35"
hound = "3.5"
rubato = "0.16"
