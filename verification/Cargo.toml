[package]
name = "lighthtml"
version = "0.1.0"
edition = "2021"
publish = false

[dependencies]
serde = { version = "1", features = ["derive"] }
serde-tuple-vec-map = "1"
