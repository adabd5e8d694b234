[package]
name = "elearning"
version = "0.1.0"
edition = "2021"
publish = false

[dependencies]
near-sdk = { version = "=4.1.1", default-features = false }
hex = "0.4.3"
unidecode = "0.3.0"
