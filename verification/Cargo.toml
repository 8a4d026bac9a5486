[package]
name = "wordwolf"
version = "0.1.0"
edition = "2021"
publish = false

[dependencies]
rand = "0.8"
serde = { version = "1", features = ["derive"] }
serde_json = "1"
tokio = { version = "1", features = ["full"] }
axum = { version = "0.7", features = ["ws"] }
futures-util = "0.3"
async-stream = "0.3"
log = "0.4"
env_logger = "0.11"
failure = "0.1"
