[package]
name = "vkb_bridge"
version = "0.1.0"
edition = "2021"
publish = false

[dependencies]
anyhow = "1"
evdev = "0.13"
serde = { version = "1", features = ["derive"] }
toml = "*"
vjoy = "*"
