[package]
name = "amberguard"
version = "0.5.0"
edition = "2021"
publish = false

[dependencies]
env_logger = "0.11"
log = { version = "0.4", features = ["std"] }
nix = { version = "0.29", features = ["socket", "poll", "fs", "uio"] }
serde = { version = "1", features = ["derive"] }
serde_json = "1"
thiserror = "1"
tiny_http = "0.12"
toml = "0.8"
