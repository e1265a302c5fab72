[package]
name = "capture_session"
version = "0.1.0"
edition = "2021"
publish = false

[dependencies]
cosmic-client-toolkit = "0.2.0"
wayland-client = "0.31"
