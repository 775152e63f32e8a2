[package]
name = "oracle-rs"
version = "0.1.0"
edition = "2021"
publish = false

[dependencies]
aes = "0.8"
bytes = "1"
cbc = { version = "0.1", features = ["alloc", "block-padding"] }
chrono = "0.4"
hex = "0.4"
hostname = "0.4"
indexmap = "2"
md-5 = "0.10"
pbkdf2 = { version = "0.12", features = ["hmac"] }
rand = "0.8"
sha1 = "0.10"
sha2 = "0.10"
