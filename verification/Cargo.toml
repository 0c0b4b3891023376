[package]
name = "terrain"
version = "0.1.0"
edition = "2021"
publish = false

[dependencies]
rand = "0.8"
nalgebra-glm = "*"
specs = "*"
sdl2 = { version = "*", features = ["ttf"] }
gl = "*"
image = { version = "*", default-features = false, features = ["png", "jpeg"] }
obj-rs = "*"
