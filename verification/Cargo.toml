[package]
name = "lorenz_sim"
version = "0.1.0"
edition = "2021"
publish = false

[dependencies]
rand = "0.8"
glam = "0.24"
bytemuck = { version = "1", features = ["derive"] }
pollster = "0.3"
wgpu = "0.17"
winit = { version = "0.28", default-features = false, features = ["x11"] }
