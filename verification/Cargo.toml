[package]
name = "resolve_wallet"
version = "0.1.0"
edition = "2021"
publish = false

[dependencies]
alloy-primitives = "*"
stylus-sdk = "*"
