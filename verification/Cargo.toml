[package]
name = "round_cat"
version = "0.1.0"
edition = "2021"
publish = false

[dependencies]
discrete_range_map = "*"
nodit = "*"
ash = "0.37"
gltf = "1"
serde = { version = "1", features = ["derive"] }
serde_json = "1"
ultraviolet = "0.9"
winit = "0.28"
anyhow = "1"
