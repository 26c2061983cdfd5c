[package]
name = "data_extractor"
version = "0.1.0"
edition = "2021"
publish = false

[dependencies]
anyhow = "*"
chrono = "*"
clap = { version = "*", default-features = false, features = ["std", "derive", "help"] }
csv = "*"
dotenv = "*"
elasticsearch = { version = "=8.19.0-alpha.1", default-features = false, features = ["rustls-tls"] }
futures = "*"
mongodb = "*"
redis = "*"
rust_xlsxwriter = "*"
serde_json = "*"
sqlx = { version = "=0.8.6", default-features = false, features = ["postgres", "mysql", "sqlite", "runtime-tokio", "tls-rustls", "chrono", "bigdecimal", "json"] }
tokio = { version = "*", features = ["macros", "rt-multi-thread", "time"] }
