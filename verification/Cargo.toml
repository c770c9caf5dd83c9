[package]
name = "oo_route"
version = "0.1.0"
edition = "2021"
publish = false

[dependencies]
solana-program = "1.18"
spl-token = "4.0"
spl-token-2022 = "1.0"
arrayref = "0.3"
num-traits = "0.2"
num-derive = "0.4"
thiserror = "1.0"
