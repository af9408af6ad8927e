[package]
name = "voice2midi"
version = "0.1.0"
edition = "2021"
publish = false

[dependencies]
anyhow = "*"
cpal = "*"
cursive = "*"
midir = "*"
pitch-detection = "*"
