[package]
name = "faceserve"
version = "0.1.0"
edition = "2021"
publish = false

[dependencies]
image = "0.23"
sha1 = "0.6"
base64 = "0.13"
bytes = "1"
log = "0.4"
env_logger = "0.9"
serde = { version = "1", features = ["derive"] }
serde_json = "1"
thiserror = "1"
uuid = { version = "0.8", features = ["serde"] }
tokio = { version = "1", features = ["macros", "rt-multi-thread", "sync", "time"] }
warp = "0.3"
reqwest = { version = "0.11", default-features = false, features = ["json", "gzip", "rustls-tls"] }
governor = "0.4"
