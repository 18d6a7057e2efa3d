[package]
name = "pledge_indexer"
version = "0.1.0"
edition = "2021"
publish = false

[dependencies]
snarkvm-console = "=0.16.19"
ureq = "=2.12.1"

[dev-dependencies]
serde_json = "=1.0.151"
