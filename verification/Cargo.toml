[package]
name = "consensus"
version = "0.1.0"
edition = "2021"
publish = false

[dependencies]
borsh = { version = "1", features = ["derive"] }
serde = { version = "1", features = ["derive"] }
toml = "0.8"
thiserror = "1"
smallvec = "1"
blake3 = { version = "1", features = ["pure"] }
blst = "0.3"
