[package]
name = "qwen_gateway"
version = "0.1.0"
edition = "2021"
publish = false

[dependencies]
serde_json = "1"
tiktoken-rs = "*"
axum = "0.7"
tokio = { version = "1", features = ["rt", "time", "sync", "macros"] }
tracing = "0.1"
futures-util = "0.3"
async-stream = "0.3"
