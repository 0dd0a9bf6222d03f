[package]
name = "rgb_ln_core"
version = "0.1.0"
edition = "2021"
publish = false

[dependencies]
bitcoin-bech32 = "*"
serde = { version = "*", features = ["derive"] }
serde_json = "*"
