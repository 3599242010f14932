[package]
name = "joypad_input"
version = "0.1.0"
edition = "2021"
publish = false

[dependencies]
anyhow = "1"
env_logger = "0.10"
log = "0.4"
serde = { version = "1", features = ["derive"] }
winit = "0.28"
