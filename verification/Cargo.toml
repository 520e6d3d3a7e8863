[package]
name = "phantom_editor"
version = "0.1.0"
edition = "2021"
publish = false

[dependencies]
anyhow = "=1.0.104"
bincode = "=1.3.3"
bytemuck = { version = "=1.25.2", features = ["derive"] }
egui = "=0.36.2"
egui_dock = { version = "=0.21.1", features = ["serde"] }
egui-wgpu = "0.36"
egui-winit = "0.36"
egui_extras = { version = "0.36", features = ["image"] }
env_logger = "=0.11.11"
glam = "=0.34.2"
image = { version = "0.25", default-features = false, features = ["png"] }
libloading = "=0.9.0"
log = "=0.4.35"
open = "=5.4.5"
pollster = "=1.0.1"
proc-macro2 = "=1.0.107"
quote = "=1.0.47"
serde = { version = "=1.0.229", features = ["derive"] }
serde_json = "=1.0.154"
syn = { version = "=2.0.119", features = ["full"] }
uuid = "=1.29.1"
winit = "0.30"
