[package]
name = "chip8"
version = "0.1.0"
edition = "2021"
publish = false

[dependencies]
config = { version = "*", default-features = false, features = ["toml"] }
rand = "0.9"
sdl2 = "*"
