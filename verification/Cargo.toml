[package]
name = "dlog_sig"
version = "0.1.0"
edition = "2021"
publish = false

[dependencies]
bincode = "1"
blake3 = "1"
mod_exp = "*"
rand = "0.8"
rand_chacha = "0.3"
