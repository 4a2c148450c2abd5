[package]
name = "neta"
version = "0.1.0"
edition = "2021"
publish = false

[dependencies]
base64 = "0.13"
cpal = "*"
gltf = "1"
pollster = "*"
raw-window-handle = "0.6"
wgpu = "*"
winit = "0.30"
