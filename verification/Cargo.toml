[package]
name = "ledger_lang"
version = "0.1.0"
edition = "2021"
publish = false

[dependencies]
num-bigint = "0.4"
unicode-id-start = "*"
clap = { version = "4", features = ["derive"] }
eyre = "0.6"
thiserror = "2"
