[package]
name = "keccak_prover"
version = "0.1.0"
edition = "2021"
publish = false

[dependencies]
ethers-core = { version = "2.0", default-features = false }
rand = "0.8"
serde_json = "1"
