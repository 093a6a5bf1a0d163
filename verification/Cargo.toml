[package]
name = "hdr_gradient"
version = "0.1.0"
edition = "2021"
publish = false

[dependencies]
anyhow = "=1.0.104"
colstodian = "=0.1.0-rc.3"
egui = "=0.20.1"
egui-wgpu = "=0.20.0"
egui-winit = { version = "=0.20.1", default-features = false, features = ["links"] }
env_logger = "=0.10.2"
exr = "=1.74.2"
kolor = { version = "=0.1.6", default-features = false }
log = "=0.4.34"
pixels = "=0.11.0"
smallvec = "=1.16.4"
winit = "=0.27.5"
winit_input_helper = "=0.13.0"
