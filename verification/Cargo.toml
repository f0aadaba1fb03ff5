[package]
name = "nugget"
version = "0.1.0"
edition = "2021"
publish = false

[dependencies]
glam = { version = "=0.24.2", features = ["bytemuck"] }
bytemuck = "=1.25.2"
gltf = "=1.4.1"
