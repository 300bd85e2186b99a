[package]
name = "rhv"
version = "0.1.0"
edition = "2021"
publish = false

[dependencies]
bit-vec = "*"
serde = { version = "*", features = ["derive"] }
serde_json = "*"
x86 = "*"
