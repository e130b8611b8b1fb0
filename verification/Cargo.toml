[package]
name = "magma_core"
version = "0.1.0"
edition = "2021"
publish = false

[dependencies]
cosmwasm-std = "2"
cosmwasm-schema = "2"
cw20 = "2"
cw20-base = "2"
cw-storage-plus = "2"
cw-utils = "2"
neutron-std = "*"
osmosis-std = "*"
thiserror = "1"
serde = { version = "1", features = ["derive"] }
anyhow = "1"
once_cell = "1"
