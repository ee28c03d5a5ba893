[package]
name = "pulsecast"
version = "0.1.0"
edition = "2021"
publish = false

[dependencies]
bytes = "1"
dashmap = "6"
dotenv = "0.15"
flume = "0.11"
futures = "0.3"
fxhash = "0.2"
mimalloc = "0.1"
once_cell = "1"
serde = { version = "1", features = ["derive"] }
serde_json = "1"
tokio = { version = "1", features = ["full"] }
tokio-stream = "0.1"
tracing = "0.1"
tracing-subscriber = "0.3"
warp = "0.3"
