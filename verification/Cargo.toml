[package]
name = "archmap"
version = "0.1.0"
edition = "2021"
publish = false

[dependencies]
chrono = "*"
semver = "*"
serde = { version = "*", features = ["derive"] }
serde_json = "*"
schemars = "*"
thiserror = "*"
