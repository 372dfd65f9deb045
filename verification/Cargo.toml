[package]
name = "witness_bench"
version = "0.1.0"
edition = "2021"
publish = false

[dependencies]
alloy-consensus = { version = "=2.5.0", features = ["k256", "serde"] }
alloy-eips = { version = "=2.5.0", features = ["serde"] }
alloy-primitives = { version = "=1.7.3", features = ["serde", "rlp"] }
alloy-rlp = "=0.3.17"
alloy-rpc-types-debug = "=2.5.0"
alloy-rpc-types-engine = { version = "=2.5.0", features = ["jwt", "serde"] }
alloy-rpc-types-eth = { version = "=2.5.0", features = ["serde"] }
alloy-rpc-types-mev = "=2.5.0"
alloy-serde = "=2.5.0"
async-trait = "=0.1.92"
clap = { version = "=4.6.7", default-features = false, features = ["derive", "std", "help", "usage", "error-context"] }
eyre = "=0.6.14"
jsonrpsee = { version = "=0.26.1", features = ["server-core", "client-core", "macros"] }
reqwest = { version = "=0.13.5", default-features = false, features = ["blocking", "json"] }
reth-primitives-traits = "=0.8.2"
serde = { version = "=1.0.229", features = ["derive"] }
serde_json = "=1.0.154"
thiserror = "=2.0.21"
tracing = "=0.1.44"
zstd = "=0.13.4"
