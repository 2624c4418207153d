[package]
name = "lastconvoy"
version = "0.1.0"
edition = "2021"
publish = false

[dependencies]
macroquad = { version = "0.4", default-features = false }
miniquad = "0.4"
quad-storage = "*"
serde = { version = "1", features = ["derive"] }
serde_json = "1"
toml = "0.8"
