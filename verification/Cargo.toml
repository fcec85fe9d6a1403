[package]
name = "thinner-floor"
version = "0.1.0"
edition = "2021"
publish = false

[dependencies]
bytemuck = { version = "1", features = ["derive"] }
glam = "0.29"
interprocess = "2"
png = "0.17"
pollster = "0.4"
serde = { version = "1", features = ["derive"] }
serde_json = "1"
sha2 = "0.10"
wgpu = "24"
winit = "0.30"
