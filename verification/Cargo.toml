[package]
name = "paymoncoin"
version = "0.1.0"
edition = "2021"
publish = false

[dependencies]
hex = "=0.4.3"
rust-crypto = "=0.2.36"
secp256k1 = "=0.33.1"
base64 = "=0.23.1"
byteorder = "=1.5.0"
serde = { version = "=1.0.229", features = ["derive"] }
serde_json = "=1.0.154"
rand = "=0.10.3"
linked_hash_set = "=0.1.6"
log = "=0.4.35"
regex = "=1.13.1"
chrono = { version = "0.4", default-features = false, features = ["clock"] }
rustc-serialize = "=0.3.25"
