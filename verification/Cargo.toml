[package]
name = "asset_ledger"
version = "0.1.0"
edition = "2021"
publish = false

[dependencies]
frame-support = "=49.0.0"
frame-system = "=49.0.0"
serde_json = "=1.0.154"
sp-arithmetic = "=29.0.0"
sp-core = "=43.0.0"
sp-io = "=49.0.0"
sp-runtime = "=49.0.0"
