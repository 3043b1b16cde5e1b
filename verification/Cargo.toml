[package]
name = "my_chat"
version = "0.1.0"
edition = "2021"
publish = false

[dependencies]
chrono = "*"
bytes = "*"
regex = "*"
tokio = { version = "*", features = ["full"] }
