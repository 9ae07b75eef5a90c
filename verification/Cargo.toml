[package]
name = "music_theory"
version = "0.1.0"
edition = "2021"
publish = false

[dependencies]
arrayvec = "=0.7.8"
num-rational = { version = "=0.4.2", default-features = false }
rustc-hash = "2"
