[package]
name = "query_result"
version = "0.1.0"
edition = "2021"
publish = false

[dependencies]
mysql_common = "0.22"
tokio = { version = "0.2", features = ["io-util"] }
