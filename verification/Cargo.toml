[package]
name = "aboutface"
version = "0.1.0"
edition = "2021"
publish = false

[dependencies]
anyhow = "1"
bytemuck = { version = "1", features = ["derive"] }
image = { version = "0.25", default-features = false, features = ["png", "jpeg"] }
nokhwa = { version = "0.10", features = ["input-native"] }
ort = "2.0.0-rc.10"
pollster = "0.4"
rusqlite = { version = "*", features = ["bundled"] }
serde = { version = "1", features = ["derive"] }
thiserror = "2"
toml = "*"
wgpu = "*"
winit = "0.30"
