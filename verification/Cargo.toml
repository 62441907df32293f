[package]
name = "vid_player"
version = "0.1.0"
edition = "2021"
publish = false

[dependencies]
anyhow = "1"
bytemuck = { version = "1", features = ["derive"] }
cgmath = "0.18"
clap = { version = "=4.6.7", features = ["derive"] }
cpal = "=0.18.2"
crossbeam-channel = "=0.5.17"
env_logger = "*"
ffmpeg-next = "=9.0.0"
image = { version = "*", default-features = false, features = ["png", "jpeg"] }
log = "0.4"
pixels = "=0.17.2"
pollster = "*"
serde = { version = "=1.0.229", features = ["derive"] }
serde_json = "=1.0.154"
wgpu = "=29.0.4"
winit = "=0.30.13"
