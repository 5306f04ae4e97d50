[package]
name = "riot_rust_api"
version = "0.1.0"
edition = "2021"
publish = false

[dependencies]
anyhow = "1"
chrono = "0.4"
clap = { version = "4", features = ["derive"] }
csv = "1"
polars = { version = "0.41", default-features = false, features = ["lazy", "parquet", "dtype-i8", "dtype-i16", "fmt"] }
reqwest = { version = "0.12", default-features = false, features = ["blocking", "json", "rustls-tls"] }
serde = { version = "1", features = ["derive"] }
serde_json = "1"
