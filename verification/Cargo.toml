[package]
name = "rive_atlas"
version = "0.1.0"
edition = "2021"
publish = false

[dependencies]
etagere = "0.2"
