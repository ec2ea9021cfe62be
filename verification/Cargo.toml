[package]
name = "ckboots"
version = "0.1.0"
edition = "2021"
publish = false

[dependencies]
blake2b-rs = "*"
ckb-hash = "*"
ckb-std = "0.10.0"
ckb-types = "*"
molecule = "*"
