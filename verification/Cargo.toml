[package]
name = "ffmpeg_rust_scripts"
version = "0.1.0"
edition = "2021"
publish = false

[dependencies]
clap = { version = "4", features = ["derive"] }
chrono = "0.4"
