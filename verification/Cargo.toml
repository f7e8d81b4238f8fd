[package]
name = "frame_pipeline"
version = "0.1.0"
edition = "2021"
publish = false

[dependencies]
anyhow = "1"
clap = { version = "3.2", features = ["derive"] }
env_logger = "0.9"
pollster = "0.2"
v4l = "0.13"
wgpu = "0.13"
winit = "0.26"
