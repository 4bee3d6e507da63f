[package]
name = "secure_file_sharing"
version = "0.1.0"
edition = "2021"
publish = false

[dependencies]
ring = "*"
base64 = "*"
uuid = { version = "*", features = ["v4"] }
