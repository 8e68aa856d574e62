[package]
name = "vger"
version = "0.1.0"
edition = "2021"
publish = false

[dependencies]
bytemuck = { version = "1", features = ["derive"] }
euclid = "0.22"
fj-math = "*"
fontdue = "0.7"
wgpu = "0.12"
