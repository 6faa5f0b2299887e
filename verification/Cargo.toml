[package]
name = "tiny_mp3_player"
version = "0.1.0"
edition = "2021"
publish = false

[dependencies]
clap = { version = "4", features = ["derive"] }
rodio = { version = "0.19", default-features = false }
thiserror = "1"
