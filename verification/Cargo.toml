[package]
name = "fins"
version = "0.1.0"
edition = "2021"
publish = false

[dependencies]
base64 = "=0.22.1"
hex = "=0.4.3"
serde = { version = "=1.0.229", features = ["derive"] }
log = "=0.4.34"
reqwest = { version = "=0.12.28", default-features = false }
rocket = { version = "=0.5.1", features = ["json"] }
