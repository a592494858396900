[package]
name = "libwayshot"
version = "0.1.0"
edition = "2021"
publish = false

[dependencies]
image = { version = "*", default-features = false, features = ["png"] }
memmap2 = "*"
wayland-client = "*"
wayland-protocols = { version = "*", features = ["client", "staging", "unstable"] }
wayland-protocols-wlr = { version = "*", features = ["client"] }
