[package]
name = "image_cache"
version = "0.1.0"
edition = "2021"
publish = false

[dependencies]
image = "*"
base64 = "*"
sha2 = "*"
serde = { version = "*", features = ["derive"] }
serde_json = "*"
