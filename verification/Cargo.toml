[package]
name = "mpc_core"
version = "0.1.0"
edition = "2021"
publish = false

[dependencies]
blake3 = "1"
bincode = "1.3"
rand_chacha = "0.3"
rand_core = "0.6"
serde = { version = "1", features = ["derive"] }
garble_lang = "*"

[dev-dependencies]
rand = "0.8"
