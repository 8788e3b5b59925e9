[package]
name = "shojiwm_backend"
version = "0.1.0"
edition = "2021"
publish = false

[dependencies]
smithay = { version = "=0.7.0", default-features = false, features = ["backend_drm", "desktop", "wayland_frontend", "xwayland"] }
smithay-drm-extras = { version = "=0.1.0", default-features = false }
tracing = "=0.1.44"
