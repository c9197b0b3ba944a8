[package]
name = "rusty_games"
version = "0.1.0"
edition = "2021"
publish = false

[dependencies]
bytes = "1"
rand = "0.8"
fastrand = "2"
sdl2 = "*"
