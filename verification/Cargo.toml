[package]
name = "dex_tools"
version = "0.1.0"
edition = "2021"
publish = false

[dependencies]
anyhow = "1"
arc-swap = "1"
async-trait = "0.1"
num-integer = "0.1"
orca_whirlpools_client = { version = "4", default-features = false }
orca_whirlpools_core = { version = "2", default-features = false }
solana-sdk = { version = "2", default-features = false }
spl-token = "8"
