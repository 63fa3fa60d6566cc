[package]
name = "wm98_core"
version = "0.1.0"
edition = "2021"
publish = false

[dependencies]
anyhow = "1"
log = "0.4"
env_logger = "*"
serde = { version = "1", features = ["derive"] }
toml = "*"
tiny-skia = "*"
smithay = { version = "*", default-features = false, features = ["backend_winit", "desktop", "wayland_frontend", "renderer_gl"] }
objc2 = "*"
objc2-app-kit = "*"
objc2-foundation = "*"
core-foundation = "*"
core-graphics = "*"
