[package]
name = "umbral"
version = "0.1.0"
edition = "2021"
publish = false

[dependencies]
k256 = "0.13"
chacha20poly1305 = "0.10"
blake2 = "0.10"
hkdf = "0.12"
sha2 = "0.10"
sha3 = "0.10"
rand_core = { version = "0.6", features = ["getrandom"] }
wasm-bindgen = "0.2"
