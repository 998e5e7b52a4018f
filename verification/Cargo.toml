[package]
name = "desub"
version = "0.1.0"
edition = "2021"
publish = false

[dependencies]
parity-scale-codec = "*"
sp-core-hashing = "*"
serde = { version = "*", features = ["derive"] }
serde_json = "*"
