[package]
name = "clawrunner"
version = "0.1.0"
edition = "2021"
publish = false

[dependencies]
portable-pty = "*"
dirs = "*"
serde = { version = "*", features = ["derive"] }
serde_json = "*"
