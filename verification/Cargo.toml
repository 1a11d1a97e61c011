[package]
name = "runh_core"
version = "0.1.0"
edition = "2021"
publish = false

[dependencies]
nix = "=0.26.4"
oci-spec = "=0.10.0"
log = { version = "*", features = ["std"] }
chrono = "*"
serde = { version = "*", features = ["derive"] }
serde_json = "*"
