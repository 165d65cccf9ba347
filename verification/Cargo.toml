[package]
name = "zml_staking"
version = "0.1.0"
edition = "2021"
publish = false

[dependencies]
near-sdk = { version = "4.1.1", default-features = false }
near-contract-standards = "4.1.1"
uint = { version = "0.9", default-features = false }

[dev-dependencies]
primitive-types = { version = "0.12", default-features = false }
