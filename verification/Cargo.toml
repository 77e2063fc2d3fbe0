[package]
name = "election_db"
version = "0.1.0"
edition = "2021"
publish = false

[dependencies]
argparse = "=0.2.2"
bson = "=0.12.3"
mongodb = "=0.3.10"
rust-crypto = "=0.2.36"
serde = { version = "=1.0.229", features = ["derive"] }
serde_derive = "=1.0.229"
serde_json = "=1.0.154"
