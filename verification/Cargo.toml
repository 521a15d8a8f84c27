[package]
name = "rastervm"
version = "0.1.0"
edition = "2021"
publish = false

[dependencies]
image = "*"
anyhow = "*"
clap = { version = "*", features = ["derive"] }
