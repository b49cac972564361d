[package]
name = "forge"
version = "0.1.0"
edition = "2021"
publish = false

[dependencies]
git2 = { version = "=0.21.0", default-features = false, features = ["ssh"] }
nix = { version = "=0.31.3", features = ["user"] }
serde = { version = "=1.0.229", features = ["derive"] }
toml = "=1.1.8"
