[package]
name = "mined"
version = "0.1.0"
edition = "2021"
publish = false

[dependencies]
clap = "2"
futures = "0.3"
log = "0.4"
pretty_env_logger = "0.4"
serde = { version = "1", features = ["derive"] }
serde_cbor = "0.11"
serde_yaml = "0.8"
tokio = { version = "0.2", features = ["fs", "io-util", "macros", "rt-threaded", "stream", "sync", "time"] }
warp = { version = "0.2", default-features = false, features = ["websocket"] }
