[package]
name = "dump2parquet"
version = "0.1.0"
edition = "2021"
publish = false

[dependencies]
arrow = { version = "*", default-features = false }
chrono = { version = "0.4", default-features = false, features = ["std"] }
clap = { version = "4", features = ["derive"] }
color-eyre = "0.6"
crossbeam = "0.8"
flate2 = "1"
indicatif = "0.17"
parquet = { version = "*", default-features = false, features = ["arrow", "snap"] }
sqlparser = "0.41"
