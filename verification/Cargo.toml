[package]
name = "callat"
version = "0.1.0"
edition = "2021"
publish = false

[dependencies]
rstar = "*"
serde = { version = "*", features = ["derive"] }
serde_json = "*"
uuid = { version = "*", features = ["v4"] }
chrono = "*"
anyhow = "*"
