[package]
name = "voxel_world"
version = "0.1.0"
edition = "2021"
publish = false

[dependencies]
ahash = "0.7"
anyhow = "1"
bytemuck = { version = "1", features = ["derive"] }
cgmath = "0.18"
fxhash = "0.2"
noise = { version = "0.7", default-features = false }
rayon = "1"
rmp-serde = "0.15"
serde = { version = "1", features = ["derive"] }
sled = "0.34"
wgpu = "0.9"
winit = "0.25"
