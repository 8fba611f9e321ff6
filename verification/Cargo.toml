[package]
name = "koii_auth"
version = "0.1.0"
edition = "2021"
publish = false

[dependencies]
jsonwebtoken = { version = "=11.1.0", features = ["use_pem", "rust_crypto"] }
argon2 = "=0.6.0"
nanoid = "=0.5.0"
validator = "=0.21.0"
fast_chemail = "=0.9.6"
kanal = "=0.1.1"
tokio = { version = "=1.53.2", features = ["rt-multi-thread", "sync", "macros"] }
redis = { version = "=1.7.1", features = ["tokio-comp"] }
