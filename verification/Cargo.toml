[package]
name = "bet_exchange"
version = "0.1.0"
edition = "2021"
publish = false

[dependencies]
solana-program = "=2.1.21"
spl-token = "=6.0.0"
