[package]
name = "keymap"
version = "0.1.0"
edition = "2021"
publish = false

[dependencies]
lazy_static = "1"
winapi = { version = "0.3", features = ["winuser", "minwindef"], default-features = false }
x11-dl = "2"
