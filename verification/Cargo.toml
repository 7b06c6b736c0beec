[package]
name = "image_generator"
version = "0.1.0"
edition = "2021"
publish = false

[dependencies]
rand = "*"
cgmath = "*"
chrono = "*"
image = "*"
serde = { version = "*", features = ["derive"] }
serde_json = "*"
