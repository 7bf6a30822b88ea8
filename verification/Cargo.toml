[package]
name = "four_keys"
version = "0.1.0"
edition = "2021"
publish = false

[dependencies]
serde = { version = "*", features = ["derive"] }
serde_json = "*"
chrono = "*"
clap = { version = "*", features = ["derive"] }
inquire = "*"
