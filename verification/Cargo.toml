[package]
name = "nb_lockup"
version = "0.1.0"
edition = "2021"
publish = false

[dependencies]
anyhow = "=1.0.104"
near-indexer-primitives = "=0.37.4"
near-jsonrpc-client = "=0.22.0"
near-jsonrpc-primitives = "=0.37.4"
once_cell = "=1.21.4"
serde_json = "=1.0.151"
tokio = { version = "=1.53.2", features = ["rt-multi-thread"] }
