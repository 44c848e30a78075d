[package]
name = "gremlin_client"
version = "0.1.0"
edition = "2021"
publish = false

[dependencies]
uuid = { version = "*", features = ["v4"] }
chrono = "*"
r2d2 = "*"
serde_json = "*"
