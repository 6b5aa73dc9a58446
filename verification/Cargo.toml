[package]
name = "argononed"
version = "0.1.0"
edition = "2021"
publish = false

[dependencies]
libc = "*"
rppal = "*"
serde = { version = "*", features = ["derive"] }
signal-hook = "*"
toml = "*"
