[package]
name = "btc_tx"
version = "0.1.0"
edition = "2021"
publish = false

[dependencies]
hex = "0.4"
hex-literal = "0.4"
