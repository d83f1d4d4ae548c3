[package]
name = "backend"
version = "0.1.0"
edition = "2021"
publish = false

[dependencies]
serde_json = "1"
time = "0.3"
serde = { version = "1", features = ["derive"] }
tokio = { version = "1", features = ["macros", "rt-multi-thread", "sync", "time"] }
tokio-stream = "0.1"
warp = { version = "0.3", default-features = false, features = ["websocket"] }
futures = "0.3"
futures-util = "0.3"
log = "0.4"
env_logger = "0.10"
