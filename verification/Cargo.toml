[package]
name = "anchor_registry"
version = "0.1.0"
edition = "2021"
publish = false

[dependencies]
ink = { version = "=5.1.1", features = ["std"] }
