[package]
name = "elgamal"
version = "0.1.0"
edition = "2021"
publish = false

[dependencies]
bls12_381 = "=0.8.0"
ff = "=0.13.1"
rand = "=0.8.8"
serde = "=1.0.229"

[dev-dependencies]
rand_chacha = "=0.3.1"
