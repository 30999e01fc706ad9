[package]
name = "agm_proxy"
version = "0.1.0"
edition = "2021"
publish = false

[dependencies]
async-stream = "0.3"
axum = "0.7"
bytes = "1"
chrono = "0.4"
futures = "0.3"
regex = "1"
serde_json = "1"
tokio = { version = "1", features = ["time"] }
tracing = "0.1"
