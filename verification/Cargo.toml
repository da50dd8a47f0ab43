[package]
name = "jobqueue"
version = "0.1.0"
edition = "2021"
publish = false

[dependencies]
hmac = "*"
sha2 = "*"
hex = "*"
uuid = { version = "*", features = ["v4"] }
urlencoding = "*"
serde = { version = "*", features = ["derive"] }
serde_json = "*"
