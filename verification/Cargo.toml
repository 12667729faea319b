[package]
name = "supiki"
version = "0.1.0"
edition = "2021"
publish = false

[dependencies]
serde_json = "*"
base64 = "*"
dirs = "*"
image = { version = "*", default-features = false, features = ["png", "jpeg", "gif", "webp"] }
