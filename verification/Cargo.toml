[package]
name = "parquetgen"
version = "0.1.0"
edition = "2021"
publish = false

[dependencies]
parquet = { version = "*", default-features = false }

[dev-dependencies]
bytes = "*"
