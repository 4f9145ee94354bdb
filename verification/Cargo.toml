[package]
name = "ledger_tx"
version = "0.1.0"
edition = "2021"
publish = false

[dependencies]
ed25519-dalek = "2"
rand = "0.8"
rayon = "1"
chrono = "0.4"
bincode = "1"
serde = { version = "1", features = ["derive"] }
