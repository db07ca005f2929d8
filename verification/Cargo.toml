[package]
name = "shorelark"
version = "0.1.0"
edition = "2021"
publish = false

[dependencies]
glam = "0.13"
rand = "0.8"
bevy = { version = "0.5", default-features = false, features = ["render"] }

[dev-dependencies]
rand_chacha = "0.3"
