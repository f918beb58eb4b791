[package]
name = "evm_impl"
version = "0.1.0"
edition = "2021"
publish = false

[dependencies]
bytes = "1"
hashbrown = "=0.13.2"
primitive-types = { version = "=0.12.2", features = ["rlp"] }
revm_precompiles = { version = "=1.1.2", default-features = false, features = ["k256_ecrecover"] }
rlp = "=0.5.2"
sha3 = "=0.10.9"
