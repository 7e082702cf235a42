[package]
name = "foxbox_backend"
version = "0.1.0"
edition = "2021"
publish = false

[dependencies]
transformable_channels = "0.1.1"
