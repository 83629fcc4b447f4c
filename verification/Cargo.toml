[package]
name = "keytag"
version = "0.1.0"
edition = "2021"
publish = false

[dependencies]
ed25519-dalek = { version = "2", features = ["rand_core"] }
rand_core = "0.6"
scrypt = { version = "0.11", default-features = false }
serde = { version = "1", features = ["derive"] }

[dev-dependencies]
rand = "0.8"
