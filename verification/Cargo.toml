[package]
name = "oscar"
version = "0.1.0"
edition = "2021"
publish = false

[dependencies]
anyhow = "=1.0.104"
convert_case = "=0.12.0"
egui-wgpu = "=0.37.0"
epaint = "=0.37.0"
log = "=0.4.35"
mlua = { version = "=0.12.2", features = ["luau", "serialize", "error-send"] }
pollster = "=1.0.1"
rosc = "=0.11.4"
serde = { version = "=1.0.229", features = ["derive"] }
simple_logger = "=5.2.0"
winit = "=0.30.13"
