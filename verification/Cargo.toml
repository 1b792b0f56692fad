[package]
name = "mkframe"
version = "0.1.0"
edition = "2021"
publish = false

[dependencies]
tiny-skia = "=0.11.4"
smithay-client-toolkit = "=0.19.2"
wayland-client = "=0.31.15"
wayland-protocols = { version = "=0.32.13", features = ["client"] }
cosmic-text = "=0.12.1"
wgpu = "=23.0.1"
pollster = "=0.4.0"
bytemuck = { version = "=1.25.2", features = ["derive"] }
log = "=0.4.34"

[dev-dependencies]
xkeysym = "=0.2.1"
