[package]
name = "program_deployer"
version = "0.1.0"
edition = "2021"
publish = false

[dependencies]
bincode = "1.3"
solana-sdk = "1.18"
solana-bpf-loader-program = "1.18"
solana-program-runtime = "1.18"
solana_rbpf = "0.8"
