[package]
name = "termwindow"
version = "0.1.0"
edition = "2021"
publish = false

[dependencies]
anyhow = "1"
bytemuck = { version = "1", features = ["derive"] }
euclid = "0.22"
glium = { version = "0.35", default-features = false }
wgpu = { version = "25", default-features = false }
