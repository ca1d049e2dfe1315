[package]
name = "fish_core"
version = "0.1.0"
edition = "2021"
publish = false

[dependencies]
rand = { version = "0.8.5", features = ["small_rng"] }
libc = "0.2"
