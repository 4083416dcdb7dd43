[package]
name = "scene_core"
version = "0.1.0"
edition = "2021"
publish = false

[dependencies]
bytemuck = "*"
egui = "*"
egui-wgpu = "*"
egui-winit = { version = "*", default-features = false }
glam = "*"
image = { version = "*", default-features = false, features = ["png", "jpeg"] }
pollster = "*"
serde = { version = "*", features = ["derive"] }
serde_json = "*"
wgpu = "*"
winit = "*"
