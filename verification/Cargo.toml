[package]
name = "boids"
version = "0.1.0"
edition = "2021"
publish = false

[dependencies]
num_cpus = "1"
spatial-neighbors = "*"
rand = "0.8"
bytemuck = { version = "1", features = ["derive"] }
pollster = "0.2"
env_logger = "0.9"
winit = "0.27"
wgpu = "0.14"
wgpu_glyph = "0.18"
