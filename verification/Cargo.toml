[package]
name = "shade_octree"
version = "0.1.0"
edition = "2021"
publish = false

[dependencies]
glam = "0.27"
serde = { version = "1", features = ["derive"] }
serde_json = "1"
rayon = "1"
bytemuck = { version = "1", features = ["derive"] }
zerocopy = { version = "0.7", features = ["derive"] }
cgmath = "0.18"
wasm-bindgen = "0.2"
