[package]
name = "rookdb"
version = "0.1.0"
edition = "2021"
publish = false

[dependencies]
env_logger = "0.11"
log = "0.4"
rook-parser = "*"
serde = { version = "1", features = ["derive"] }
serde_json = "1"
storage_manager = "*"
