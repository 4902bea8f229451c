[package]
name = "wasi_nn_host"
version = "0.1.0"
edition = "2021"
publish = false

[dependencies]
candle-core = { version = "=0.11.1", default-features = false }
safetensors = "=0.8.0"
serde = { version = "=1.0.229", features = ["derive"] }
serde_json = "=1.0.154"
tokio = { version = "=1.54.1", features = ["sync", "time", "rt", "rt-multi-thread"] }
tracing = "=0.1.44"
