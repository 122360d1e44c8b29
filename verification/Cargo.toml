[package]
name = "fern"
version = "0.0.3"
edition = "2021"
publish = false

[dependencies]
anyhow = "1"
dirs = "*"
ignore = "0.4"
pico-args = "*"
serde = { version = "1", features = ["derive"] }
serde_yaml = "0.8"
