[package]
name = "emergence_lib"
version = "0.1.0"
edition = "2021"
publish = false

[dependencies]
bevy = { version = "0.10", default-features = false }
hexx = "0.5"
rand = "0.8"
