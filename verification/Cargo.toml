[package]
name = "anchor_lang"
version = "0.1.0"
edition = "2021"
publish = false

[dependencies]
solana-pubkey = { version = "=4.4.0", features = ["curve25519"] }
borsh = "=1.8.1"
solana-account-info = "=3.1.1"
solana-program-error = "=3.0.1"
