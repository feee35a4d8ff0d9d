[package]
name = "sicom"
version = "0.1.0"
edition = "2021"
publish = false

[dependencies]
anyhow = "1"
clap = { version = "4", features = ["derive"] }
env_logger = "0.11"
ffmpeg-sidecar = "*"
ffprobe = "*"
image = "*"
indicatif = "*"
log = "0.4"
mp3lame-encoder = "*"
symphonia = { version = "0.5", features = ["mp3"] }
tempfile = "3"
thiserror = "1"
urlencoding = "2"
webp = "*"
zip = "*"
