[package]
name = "gizmo"
version = "0.1.0"
edition = "2021"
publish = false

[dependencies]
dirs = "=5.0.1"
objc = "=0.2.7"
rand = "=0.8.8"
raw-window-handle = "=0.6.2"
softbuffer = { version = "=0.4.8", default-features = false, features = ["wayland", "wayland-dlopen"] }
winit = { version = "=0.29.15", default-features = false, features = ["rwh_06", "wayland", "wayland-dlopen", "x11"] }
