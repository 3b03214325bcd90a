[package]
name = "article_store"
version = "0.1.0"
edition = "2021"
publish = false

[dependencies]
solana-program = "=5.1.0"
solana-system-interface = { version = "=3.3.0", features = ["bincode"] }

[dev-dependencies]
borsh = "=1.8.1"
