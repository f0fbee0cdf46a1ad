[package]
name = "rime-poc"
version = "0.1.0"
edition = "2021"
publish = false

[dependencies]
anyhow = "1"
librime-sys = "*"
rime-api = "*"
serde = { version = "1", features = ["derive"] }
toml = "*"
