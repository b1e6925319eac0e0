[package]
name = "compositor"
version = "0.1.0"
edition = "2021"
publish = false

[dependencies]
wayland-server = "*"
wayland-protocols = { version = "*", features = ["server", "staging", "unstable"] }
calloop = "*"
libc = "*"
half = "*"
rustc-hash = "*"
