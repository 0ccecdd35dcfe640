[package]
name = "codesnap"
version = "0.1.0"
edition = "2021"
publish = false

[dependencies]
cosmic-text = "0.12"
tiny-skia = "0.11"
