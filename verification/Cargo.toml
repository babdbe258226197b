[package]
name = "arrow-tools"
version = "0.1.0"
edition = "2021"
publish = false

[dependencies]
arrow = "*"
arrow-schema = { version = "*", features = ["serde"] }
clap = { version = "4", features = ["derive"] }
flate2 = "*"
parquet = "*"
regex = "*"
serde_json = "*"
