[package]
name = "cobalt"
version = "0.1.0"
edition = "2021"
publish = false

[dependencies]
ahash = "0.8"
anyhow = "1"
bytemuck = { version = "1", features = ["derive"] }
chrono = "0.4"
hecs = "0.10"
log = "0.4"
pollster = "0.3"
serde = { version = "1", features = ["derive"] }
ultraviolet = { version = "0.9", features = ["serde", "bytemuck"] }
uuid = { version = "1", features = ["v4"] }
winit = { version = "0.29", default-features = false, features = ["rwh_06", "x11"] }
