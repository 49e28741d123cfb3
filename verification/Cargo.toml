[package]
name = "wolkenwelten"
version = "0.1.0"
edition = "2021"
publish = false

[dependencies]
glam = { version = "=0.34.2", features = ["serde"] }
rgb = "=0.8.53"
serde = { version = "=1.0.229", features = ["derive"] }
string-interner = "=0.20.0"
