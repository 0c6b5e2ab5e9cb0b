[package]
name = "bitcoind_tx_sync"
version = "0.1.0"
edition = "2021"
publish = false

[dependencies]
bitcoin = "0.29"
lightning = "0.0.114"
bdk = { version = "0.27", default-features = false, features = ["rpc"] }
bitcoincore-rpc = "0.16"
esplora-client = { version = "0.4", default-features = false }
futures = "0.3"
