[package]
name = "coconut_dkg"
version = "0.1.0"
edition = "2021"
publish = false

[dependencies]
bs58 = "*"
cosmwasm-std = "*"
serde = { version = "*", features = ["derive"] }
serde_json = "*"
chrono = { version = "*", features = ["serde"] }
tokio = { version = "*", features = ["rt", "time", "macros"] }

[dev-dependencies]
ed25519-dalek = "*"
