[package]
name = "flip_companion"
version = "0.1.0"
edition = "2021"
publish = false

[dependencies]
calloop = "0.14"
clap = { version = "4", features = ["derive"] }
drm = "0.14"
drm-fourcc = "2"
evdev = "0.13"
libc = "0.2"
serde = { version = "1", features = ["derive"] }
slint = { version = "=1.8.0", default-features = false, features = ["compat-1-2", "std", "renderer-software"] }
smithay = { version = "0.7", default-features = false, features = ["backend_egl", "backend_gbm", "renderer_gl"] }
tokio = { version = "1", features = ["rt-multi-thread", "sync", "time"] }
toml = "0.8"
