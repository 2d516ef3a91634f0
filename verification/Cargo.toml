[package]
name = "axiom_assistant"
version = "0.1.0"
edition = "2021"
publish = false

[dependencies]
regex = "1"
evalexpr = "11.3"
anyhow = "1"
log = "0.4"
env_logger = "0.11"
once_cell = "1"
futures = "0.3"
tokio = { version = "1", features = ["rt", "rt-multi-thread", "macros", "sync", "time", "io-util", "io-std"] }
tokio-stream = "0.1"
serde = { version = "1", features = ["derive"] }
serde_json = "1"
wgpu = { version = "23", default-features = false, features = ["wgsl"] }
