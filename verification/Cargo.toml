[package]
name = "tweening"
version = "0.1.0"
edition = "2021"
publish = false

[dependencies]
bevy = { version = "=0.7.0", default-features = false }
darling = { version = "0.13" }
