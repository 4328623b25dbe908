[package]
name = "collidervm_toy"
version = "0.1.0"
edition = "2021"
publish = false

[dependencies]
bitcoin = { version = "=0.32.102", features = ["rand-std"] }
bitcoin_hashes = "=0.14.101"
blake3 = "=1.8.7"
indicatif = "=0.17.11"
secp256k1 = { version = "=0.29.1", features = ["rand-std"] }

[dev-dependencies]
hex = "=0.4.3"
rand = "=0.8.8"
