[package]
name = "rps_escrow"
version = "0.1.0"
edition = "2021"
publish = false

[dependencies]
hex = "*"
near-sdk = { version = "*", features = ["unit-testing"] }
