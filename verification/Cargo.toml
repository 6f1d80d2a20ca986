[package]
name = "magi_api"
version = "0.1.0"
edition = "2021"
publish = false

[dependencies]
serde = { version = "=1.0.229", features = ["derive"] }
serde_json = "=1.0.154"
sha2 = "=0.10.9"
image = { version = "0.25", default-features = false, features = ["png", "jpeg", "webp"] }
