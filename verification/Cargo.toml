[package]
name = "idms"
version = "0.1.0"
edition = "2021"
publish = false

[dependencies]
x25519-dalek = "1.2"
rand_core = { version = "0.5", features = ["getrandom"] }
ring = "0.16"
openssl = "0.10"
serde = { version = "1", features = ["derive"] }
tokio = { version = "1", features = ["sync", "rt", "macros"] }
