[package]
name = "ord"
version = "0.1.0"
edition = "2021"
publish = false

[dependencies]
bitcoin_hashes = "*"

[dev-dependencies]
regex = "*"
