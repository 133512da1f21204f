[package]
name = "clickhouse_fdw"
version = "0.1.0"
edition = "2021"
publish = false

[dependencies]
clickhouse-rs = { version = "1.1.0-alpha.1", default-features = false, features = ["tokio_io"] }
chrono = "*"
tokio = { version = "*", features = ["rt"] }
