[package]
name = "magma-core"
version = "0.1.0"
edition = "2021"
publish = false

[dependencies]
blake2 = "0.9"
bytes = "1"
digest = "0.9"
frunk = "0.4"
jsonrpc-core = "18"
jsonrpc-core-client = "18"
jsonrpc-derive = "18"
readonly = "0.2"
serde = { version = "1", features = ["derive"] }
snafu = "0.6"
varu64 = "*"
