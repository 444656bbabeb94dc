[package]
name = "passkeys"
version = "0.1.0"
edition = "2021"
publish = false

[dependencies]
constant_time_eq = "0.3"
p256 = "0.13"
rand = "0.8"
serde = { version = "1", features = ["derive"] }
serde_json = "1"
sha2 = "0.10"
url = "2"
