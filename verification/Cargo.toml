[package]
name = "lantern"
version = "0.1.0"
edition = "2021"
publish = false

[dependencies]
anyhow = "*"
ariadne = "*"
arrow = "*"
arrow-json = "*"
clap = { version = "*", features = ["derive"] }
datafusion = "*"
nu-ansi-term = "*"
parquet = { version = "*", features = ["arrow", "async"] }
reedline = "*"
thiserror = "*"
tokio = { version = "*", features = ["full"] }
uuid = { version = "*", features = ["v4"] }
