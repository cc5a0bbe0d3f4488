[package]
name = "ledger"
version = "0.1.0"
edition = "2021"
publish = false

[dependencies]
ansitok = "0.1"
anyhow = "1"
chrono = { version = "0.4", default-features = false, features = ["std", "serde"] }
clap = { version = "3.2", features = ["derive"] }
cli-table = "0.4"
derive_more = "0.99"
itertools = "0.10"
readext = "0.1"
ron = "0.8"
rust_decimal = "1"
serde = { version = "1", features = ["derive"] }
thiserror = "1"

[dev-dependencies]
proptest = "1"
