[package]
name = "atomic_escrow"
version = "0.1.0"
edition = "2021"
publish = false

[dependencies]
hex = "0.4"
sha3 = "0.10"
