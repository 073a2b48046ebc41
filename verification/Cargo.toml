[package]
name = "aj_studying"
version = "0.1.0"
edition = "2021"
publish = false

[dependencies]
pasetors = "*"
hex = "*"
rand = { version = "0.8", features = ["small_rng"] }
argon2 = "*"
sha2 = "*"
serde_json = "*"
deadpool-redis = "*"
tokio = { version = "*", features = ["rt", "macros"] }
