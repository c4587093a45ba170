[package]
name = "eltanin"
version = "0.1.0"
edition = "2021"
publish = false

[dependencies]
sha2 = "=0.10.9"
serde = { version = "=1.0.229", features = ["derive"] }
serde_json = "=1.0.154"
thiserror = "=1.0.69"
rustix = { version = "=0.38.44", features = ["net"] }
nix = { version = "=0.29.0", features = ["process", "socket"] }
libproc = "=0.14.11"
