[package]
name = "solana_idlgen"
version = "0.1.0"
edition = "2021"
publish = false

[dependencies]
borsh = "*"
convert_case = "*"
proc-macro2 = "*"
quote = "*"
serde = { version = "*", features = ["derive"] }
serde_json = "*"
solana-sdk = { version = "*", default-features = false }
syn = "*"
