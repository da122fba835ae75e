[package]
name = "tdf"
version = "0.1.0"
edition = "2021"
publish = false

[dependencies]
anchor-lang = "=0.32.2"
anchor-spl = { version = "=0.32.2", default-features = false, features = ["associated_token", "token"] }
ephemeral-rollups-sdk = { version = "=0.17.3", features = ["anchor-compat"] }
