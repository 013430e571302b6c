[package]
name = "glyphgrid"
version = "0.1.0"
edition = "2021"
publish = false

[dependencies]
cosmic-text = "*"
serde = { version = "*", features = ["derive"] }
serde_yaml = "*"
