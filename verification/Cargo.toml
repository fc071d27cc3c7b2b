[package]
name = "tas_edit_core"
version = "0.1.0"
edition = "2021"
publish = false

[dependencies]
hltas = "*"
serde = { version = "*", features = ["derive"] }
pretty_env_logger = "*"
