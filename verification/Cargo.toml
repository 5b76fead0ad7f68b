[package]
name = "chip8-core"
version = "0.1.0"
edition = "2021"
publish = false

[dependencies]
rand = "0.9"
rfd = { version = "0.15", default-features = false, features = ["gtk3"] }
rodio = { version = "0.22", default-features = false, features = ["playback"] }
