[package]
name = "zkp_auth"
version = "0.1.0"
edition = "2021"
publish = false

[dependencies]
num-bigint = { version = "0.4", features = ["rand"] }
rand = "0.8"
serde = { version = "1", features = ["derive"] }
bincode = "1"
redis = "*"
