[package]
name = "async_zip"
version = "0.1.0"
edition = "2021"
publish = false

[dependencies]
tokio = { version = "=1.54.1", default-features = false, features = ["io-util"] }
tokio-util = { version = "=0.7.20", default-features = false, features = ["compat"] }
futures-lite = { version = "=2.6.1", default-features = false, features = ["std"] }
miniz_oxide = "=0.8.9"
