[package]
name = "lordbornebot"
version = "0.1.0"
edition = "2021"
publish = false

[dependencies]
chrono = "=0.4.45"
rusqlite = { version = "=0.31.0", features = ["bundled"] }
rand = "=0.8.8"
serde = { version = "=1.0.229", features = ["derive"] }
serde_json = "=1.0.154"
bincode = "=1.3.3"
log = "=0.4.35"
env_logger = "=0.10.2"
libloading = "=0.8.9"

[dev-dependencies]
regex = "=1.13.1"
