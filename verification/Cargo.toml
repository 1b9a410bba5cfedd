[package]
name = "framesense"
version = "0.1.0"
edition = "2021"
publish = false

[dependencies]
base64 = "*"
chrono = "*"
dirs = "*"
image = { version = "*", default-features = false, features = ["png"] }
screenshots = "*"
serde = { version = "*", features = ["derive"] }
serde_json = "*"
