[package]
name = "suture"
version = "0.1.0"
edition = "2021"
publish = false

[dependencies]
base64 = "0.22"
bincode = "1.3"
borsh = { version = "1.5", features = ["derive"] }
curve25519-dalek = "4.1"
getrandom = "0.3"
monero = "0.21"
serde_json = "1"
solana-curve25519 = "2.3"
solana-program = "2.3"
solana-sdk = "2.3"
solana-system-interface = { version = "1.0", features = ["bincode"] }
ureq = { version = "3", features = ["json"] }
