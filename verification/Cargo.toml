[package]
name = "libra_verif"
version = "0.1.0"
edition = "2021"
publish = false

[dependencies]
hex = "0.4"
sha3 = "0.10"
ed25519-dalek = "2"
serde = { version = "1", features = ["derive"] }
structopt = "0.3"
chrono = "0.4"
