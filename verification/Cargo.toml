[package]
name = "witnet_validations"
version = "0.1.0"
edition = "2021"
publish = false

[dependencies]
sha2 = "0.10"
failure = "0.1.8"
serde = { version = "1", features = ["derive"] }
actix = "0.13"
