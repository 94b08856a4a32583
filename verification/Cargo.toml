[package]
name = "apollo_kernel"
version = "0.1.0"
edition = "2021"
publish = false

[dependencies]
hmac = "0.12"
sha2 = "0.10"
spin = "0.9"
serde = { version = "1", features = ["derive"] }
