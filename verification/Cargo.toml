[package]
name = "windows_gaming_driver"
version = "0.1.0"
edition = "2021"
publish = false

[dependencies]
itertools = "0.12"
serde = { version = "1", features = ["derive"] }
serde_json = "1"
serde_yaml = "0.9"
toml = "0.8"
