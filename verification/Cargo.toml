[package]
name = "civiewer"
version = "0.1.0"
edition = "2021"
publish = false

[dependencies]
natord = "=1.0.9"
zip = { version = "=8.6.0", default-features = false, features = ["deflate"] }
image = { version = "=0.25.10", default-features = false, features = ["png", "jpeg", "gif", "webp", "bmp"] }
serde = { version = "=1.0.229", features = ["derive"] }
polodb_core = "=4.4.2"
dirs = "=7.0.0"
anyhow = "=1.0.104"
