[package]
name = "coinswap-maker"
version = "0.1.0"
edition = "2021"
publish = false

[dependencies]
bitcoin = "0.30"
bitcoind = "0.33"
log = "0.4"
