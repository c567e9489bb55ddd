[package]
name = "altered_perception"
version = "0.5.0"
edition = "2021"
publish = false

[dependencies]
num-traits = "0.2"
rgb = "0.8"
serde = { version = "1", features = ["derive"] }
