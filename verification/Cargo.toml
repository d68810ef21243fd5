[package]
name = "server"
version = "0.1.0"
edition = "2021"
publish = false

[dependencies]
futures-util = "0.3"
log = "0.4"
pretty_env_logger = "0.5"
serde = { version = "1", features = ["derive"] }
serde_json = "1"
tokio = { version = "1", features = ["macros", "rt-multi-thread", "sync", "time"] }
tokio-stream = "0.1"
vek = { version = "*", features = ["serde"] }
warp = "0.3"
