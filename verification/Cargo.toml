[package]
name = "ledger_programs"
version = "0.1.0"
edition = "2021"
publish = false

[dependencies]
solana-program = "2"
borsh = "0.10"
bytemuck = { version = "1", features = ["derive"] }
thiserror = "1"
anchor-lang = "*"
