[package]
name = "integritee_parachain"
version = "0.1.0"
edition = "2021"
publish = false

[dependencies]
sp-arithmetic = { version = "=29.0.0", default-features = false, features = ["std"] }
parity-scale-codec = { version = "=3.7.5", default-features = false, features = ["std"] }
