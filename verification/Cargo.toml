[package]
name = "openvote"
version = "0.1.0"
edition = "2021"
publish = false

[dependencies]
bitvec = "1"
log = "0.4"
rand_core = { version = "0.6", features = ["getrandom"] }
web3 = { version = "0.18", default-features = false }
winterfell = "0.4"
