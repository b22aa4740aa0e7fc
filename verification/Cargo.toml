[package]
name = "voxrs"
version = "0.1.0"
edition = "2021"
publish = false

[dependencies]
bytemuck = "1"
guillotiere = "0.6"
serde = { version = "1", features = ["derive"] }
anyhow = "1"
async-trait = "0.1"
futures = "0.3"
log = "0.4"
wgpu = "0.8"
winit = "0.24"
legion = "0.4"
