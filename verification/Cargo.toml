[package]
name = "whence"
version = "0.1.0"
edition = "2021"
publish = false

[dependencies]
chrono = "*"
clap = { version = "*", features = ["derive"] }

[dev-dependencies]
serde_json = "*"
