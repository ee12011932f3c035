[package]
name = "westiny"
version = "0.1.0"
edition = "2021"
publish = false

[dependencies]
rand = "=0.8.8"
bevy = { version = "=0.8.1", default-features = false }
anyhow = "=1.0.104"
log = "=0.4.34"
