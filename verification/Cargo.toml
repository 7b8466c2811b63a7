[package]
name = "statement_distribution"
version = "0.1.0"
edition = "2021"
publish = false

[dependencies]
indexmap = "=2.14.2"
polkadot-primitives = "=26.0.0"
sp-core = "=43.0.0"
sp-keystore = "=0.49.0"
