[package]
name = "wgpu_mc_jni"
version = "0.1.0"
edition = "2021"
publish = false

[dependencies]
arc-swap = "1"
bytemuck = "1"
byteorder = "1"
cgmath = "0.18"
futures = "0.3"
jni = "0.19"
linked-hash-map = { version = "0.5", features = ["serde_impl"] }
once_cell = "1"
parking_lot = "0.12"
raw-window-handle = "0.4"
serde = { version = "1", features = ["derive"] }
serde_yaml = "0.8"
wgpu = "0.12"
winit = "0.26"
