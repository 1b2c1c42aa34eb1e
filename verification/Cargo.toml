[package]
name = "rtp_tools"
version = "0.1.0"
edition = "2021"
publish = false

[dependencies]
rtp-rs = "*"
anyhow = "*"
clap = { version = "*", features = ["derive"] }
