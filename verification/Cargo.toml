[package]
name = "leechbar"
version = "0.1.0"
edition = "2021"
publish = false

[dependencies]
image = { version = "=0.25.10", default-features = false, features = ["png", "jpeg"] }
rusttype = "=0.9.3"
tempfile = "=3.27.0"
toml = "=1.1.8"
wayland-client = "=0.31.15"
wayland-cursor = "=0.31.14"
xcb = "=0.10.1"
xcb-util = { version = "=0.4.0", features = ["icccm", "ewmh"] }
