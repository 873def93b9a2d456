[package]
name = "stateless"
version = "0.1.0"
edition = "2021"
publish = false

[dependencies]
alloy-consensus = { version = "=1.8.3", default-features = false }
alloy-eips = { version = "=1.8.3", default-features = false }
alloy-evm = { version = "0.29", default-features = false }
alloy-primitives = { version = "=1.7.3", default-features = false }
alloy-rlp = { version = "=0.3.17", default-features = false }
reth-primitives-traits = { version = "=0.1.1", default-features = false }
revm-database = { version = "12", default-features = false }
thiserror = { version = "=2.0.21", default-features = false }
