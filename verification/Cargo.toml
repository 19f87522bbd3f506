[package]
name = "addrindex"
version = "0.1.0"
edition = "2021"
publish = false

[dependencies]
bitcoin = "*"
bitcoin_slices = "*"
silentpayments = "*"
