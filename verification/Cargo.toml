[package]
name = "proxmox_api"
version = "0.1.0"
edition = "2021"
publish = false

[dependencies]
percent-encoding = "=2.3.2"
nix = { version = "=0.31.3", features = ["feature", "hostname"] }
serde = { version = "=1.0.229", features = ["derive"] }
serde_json = "=1.0.151"
base64 = "=0.23.1"
chrono = "=0.4.45"
