[package]
name = "gpu_geometry"
version = "0.1.0"
edition = "2021"
publish = false

[dependencies]
wgpu = "*"
geo = "*"
pollster = "*"
bytemuck = { version = "*", features = ["derive"] }
