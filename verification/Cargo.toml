[package]
name = "grepr"
version = "0.1.0"
edition = "2021"
publish = false

[dependencies]
regex = "*"
clap = { version = "*", features = ["derive"] }
walkdir = "*"
anyhow = "*"

[dev-dependencies]
rand = "0.8"
