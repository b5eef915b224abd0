[package]
name = "crowndictator"
version = "0.1.0"
edition = "2021"
publish = false

[dependencies]
anyhow = "1"
log = "0.4"
env_logger = "0.11"
evdev = "0.13"
calloop = "0.14"
serde = { version = "1", features = ["derive"] }
ron = "0.8"
ort = { version = "=2.0.0-rc.15", default-features = false }
