[package]
name = "kitty_poe"
version = "0.1.0"
edition = "2021"
publish = false

[dependencies]
parity-scale-codec = "*"
sp-io = "*"
sp-crypto-hashing = "*"
