[package]
name = "airdrop_core"
version = "0.1.0"
edition = "2021"
publish = false

[dependencies]
alloy-primitives = { version = "*", features = ["k256"] }
hex = "*"

[dev-dependencies]
k256 = { version = "*", features = ["ecdsa"] }
rand = "*"
