[package]
name = "winnie-cam"
version = "0.1.0"
edition = "2021"
publish = false

[dependencies]
bytes = "1"
anyhow = "1"
async-stream = "0.3"
axum = "0.8"
clap = { version = "4", features = ["derive"] }
serde = { version = "1", features = ["derive"] }
serde_json = "1"
tokio = { version = "1", features = ["full"] }
tokio-util = "0.7"
tracing = "0.1"
tracing-subscriber = { version = "0.3", features = ["env-filter"] }
tract-onnx = "*"
zune-jpeg = "*"
v4l = "*"
