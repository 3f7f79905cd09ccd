[package]
name = "groth16_bn254_verifier"
version = "0.1.0"
edition = "2021"
publish = false

[dependencies]
ark-bn254 = "0.4"
ark-serialize = "0.4"
groth16-solana = "*"
solana-program = "*"
