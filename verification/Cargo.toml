[package]
name = "multicall"
version = "0.1.0"
edition = "2021"
publish = false

[dependencies]
cosmwasm-schema = "1.5"
cosmwasm-std = { version = "1.5", features = ["stargate"] }
cw-storage-plus = "1.2"
cw-utils = "1.0"
cw2 = "1.1"
cw20 = "1.1"
enum-repr = "0.2"
osmosis-std = "0.22"
prost = "0.12"
schemars = "0.8"
serde = { version = "1", features = ["derive"] }
serde-cw-value = "0.7"
serde-json-wasm = "1.0"
thiserror = "1"
