[package]
name = "pool_price"
version = "0.1.0"
edition = "2021"
publish = false

[dependencies]
solana-account = "=3.4.0"
solana-pubkey = "=3.0.0"
solana-rpc-client = "=3.1.14"
