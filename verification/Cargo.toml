[package]
name = "hilen_release"
version = "0.1.0"
edition = "2021"
publish = false

[dependencies]
anyhow = "1"
ed25519-dalek = "2"
hex = "0.4"
regex = "1"
serde = { version = "1", features = ["derive"] }
serde_json = "1"
sha2 = "0.10"
toml = "*"
