[package]
name = "proslam"
version = "0.1.0"
edition = "2021"
publish = false

[dependencies]
anyhow = "1"
log = "0.4"
opencv = { version = "*", default-features = false, features = ["features2d", "imgcodecs"] }
serde = { version = "1", features = ["derive"] }
