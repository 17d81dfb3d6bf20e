[package]
name = "zk_storage_core"
version = "0.1.0"
edition = "2021"
publish = false

[dependencies]
rs_merkle = "*"
sha2 = "0.10"
bincode = "1"
rand = "0.8"
risc0-zkvm = "*"
