[package]
name = "image_viewer"
version = "0.1.0"
edition = "2021"
publish = false

[dependencies]
gif = "*"
image-webp = "*"
zenavif-parse = "*"
dav1d = "*"
tokio = { version = "1", features = ["rt-multi-thread", "sync", "time", "macros"] }
egui = "*"
egui-wgpu = "*"
egui-winit = "*"
rfd = "*"
ctrlc = "*"
