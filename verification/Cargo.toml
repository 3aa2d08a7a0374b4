[package]
name = "ecdsa_core"
version = "0.1.0"
edition = "2021"
publish = false

[dependencies]
num-bigint = { version = "0.4", features = ["rand"] }
rand = "0.8"
hex = "0.4"
sha256 = "1"
