[package]
name = "tx_support"
version = "0.1.0"
edition = "2021"
publish = false

[dependencies]
anyhow = "=1.0.104"
base64 = "=0.13.1"
bip32 = "=0.5.3"
clap = { version = "=4.6.7", features = ["derive"] }
cosmrs = "=0.22.0"
