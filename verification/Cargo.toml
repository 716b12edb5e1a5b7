[package]
name = "epoch_core"
version = "0.1.0"
edition = "2021"
publish = false

[dependencies]
chrono = "*"
chrono-tz = "*"
clap = { version = "*", features = ["derive"] }
iana-time-zone = "*"
