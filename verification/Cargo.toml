[package]
name = "wilds"
version = "0.1.0"
edition = "2021"
publish = false

[dependencies]
byteorder = "=1.5.0"
url = "=2.5.8"
gltf = { version = "1", default-features = false }
serde = { version = "1", features = ["derive"] }
ron = "0.8"
