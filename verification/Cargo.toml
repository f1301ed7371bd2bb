[package]
name = "wave_world"
version = "0.1.0"
edition = "2021"
publish = false

[dependencies]
error-chain = "0.12"
glium = { version = "*", default-features = false }
image = { version = "*", default-features = false, features = ["png", "jpeg"] }
inotify = "*"
nalgebra = "*"
nanovg = "*"
rand = "*"
sdl2 = { version = "*", features = ["mixer"] }
