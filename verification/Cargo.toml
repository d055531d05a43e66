[package]
name = "static_vec"
version = "0.1.0"
edition = "2021"
publish = false

[dependencies]
either = { version = "1", default-features = false }
