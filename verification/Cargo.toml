[package]
name = "deepwell"
version = "0.1.0"
edition = "2021"
publish = false

[dependencies]
tide = { version = "0.16", default-features = false }
