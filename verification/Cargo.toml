[package]
name = "popgetter"
version = "0.1.0"
edition = "2021"
publish = false

[dependencies]
regex = "*"
anyhow = "*"
comfy-table = "*"
futures = "*"
itertools = "*"
log = "*"
polars = { version = "*", default-features = false, features = ["lazy", "parquet"] }
reqwest = { version = "*", default-features = false, features = ["rustls-tls"] }
serde = { version = "*", features = ["derive"] }
tokio = { version = "*", features = ["full"] }
