[package]
name = "isogrid"
version = "0.1.0"
edition = "2021"
publish = false

[dependencies]
noise = "0.9"
rand = "0.8"
sdl2 = { version = "0.37", features = ["image"] }
