[package]
name = "ismp_core"
version = "0.1.0"
edition = "2021"
publish = false

[dependencies]
secp256k1 = "=0.28.2"
sp-core = "=43.0.0"
sp-io = "=49.0.0"
sp-runtime = "=49.0.0"
sp-trie = "=47.0.0"
