[package]
name = "tyrnak_engine"
version = "0.1.0"
edition = "2021"
publish = false

[dependencies]
glam = { version = "=0.34.2", features = ["serde"] }
kanal = "=0.1.1"
serde = { version = "=1.0.229", features = ["derive"] }
tracing = "=0.1.44"
