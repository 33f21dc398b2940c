[package]
name = "pasithea"
version = "0.1.0"
edition = "2021"
publish = false

[dependencies]
anyhow = "1"
clap = { version = "3", features = ["derive"] }
coqui-stt = "1"
cpal = "0.13"
dasp_interpolate = { version = "0.11", features = ["linear"] }
dasp_signal = "0.11"
nnnoiseless = { version = "0.5", default-features = false }
