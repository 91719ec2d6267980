[package]
name = "token_vesting"
version = "0.1.0"
edition = "2021"
publish = false

[dependencies]
borsh = "*"
solana-program = "*"
spl-token = "*"
