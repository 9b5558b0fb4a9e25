[package]
name = "joduga"
version = "0.1.0"
edition = "2021"
publish = false

[dependencies]
cpal = "0.15"
midir = "*"
serde = { version = "1", features = ["derive"] }
