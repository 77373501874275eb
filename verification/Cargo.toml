[package]
name = "lido_cosmos_hub"
version = "0.1.0"
edition = "2021"
publish = false

[dependencies]
cosmwasm-std = { version = "=1.5.11", features = ["staking"] }
cw20 = "=1.1.2"
schemars = "=0.8.22"
serde = { version = "=1.0.229", features = ["derive"] }
