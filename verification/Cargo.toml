[package]
name = "ledger"
version = "0.1.0"
edition = "2021"
publish = false

[dependencies]
anyhow = "*"
csv-async = { version = "*", features = ["tokio"] }
rust_decimal = "*"
serde = { version = "*", features = ["derive"] }
tokio = { version = "*", features = ["fs", "io-std", "io-util", "macros", "rt-multi-thread"] }
tokio-stream = "*"
