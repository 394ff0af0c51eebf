[package]
name = "spl_c_tokens_prototype"
version = "0.1.0"
edition = "2021"
publish = false

[dependencies]
arrayref = "0.3"
borsh = "0.9"
curve25519-dalek = "3.2"
rand_core = { version = "0.5", features = ["getrandom"] }
sha3 = "0.9"
solana-program = "1.9"
thiserror = "1"
