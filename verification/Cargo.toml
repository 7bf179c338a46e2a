[package]
name = "boxtree"
version = "0.1.0"
edition = "2021"
publish = false

[dependencies]
bytemuck = { version = "1", features = ["derive"] }
env_logger = "0.9"
ttf-parser = "0.15"
wgpu = "0.13"
winit = "0.27"
