[package]
name = "anvil-reth"
version = "0.1.0"
edition = "2021"
publish = false

[dependencies]
alloy-primitives = "1"
alloy-consensus = "1"
alloy-eips = "1"
alloy-rpc-types-anvil = "1"
alloy-rpc-types-eth = "1"
eyre = "0.6"
flate2 = "1"
futures-util = "0.3"
jsonrpsee = { version = "0.26", features = ["server", "macros"] }
parking_lot = "0.12"
serde = { version = "1", features = ["derive"] }
serde_json = "1"
tempfile = "3"
tokio = { version = "1", features = ["sync", "time", "macros", "rt-multi-thread"] }
