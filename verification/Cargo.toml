[package]
name = "bevy_life"
version = "0.1.0"
edition = "2021"
publish = false

[dependencies]
bevy = { version = "0.12", default-features = false }
rand = "0.8"
rand_distr = "0.4"
