[package]
name = "cryption_env"
version = "0.1.0"
edition = "2021"
publish = false

[dependencies]
aes-gcm = { version = "0.10", features = ["zeroize"] }
zeroize = "1"
