[package]
name = "colorgen"
version = "0.1.0"
edition = "2021"
publish = false

[dependencies]
base64 = "*"
minijinja = "*"
clap = { version = "*", features = ["derive"] }
anyhow = "*"
