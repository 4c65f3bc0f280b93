[package]
name = "fedi_crawler"
version = "0.1.0"
edition = "2021"
publish = false

[dependencies]
reqwest = { version = "=0.12.28", default-features = false, features = ["json", "rustls-tls"] }
robotxt = "=0.6.1"
tokio = { version = "=1.54.1", features = ["full"] }
redis = { version = "=1.8.1", features = ["tokio-comp", "connection-manager"] }
sqlx = { version = "=0.8.6", default-features = false, features = ["runtime-tokio", "postgres"] }
hickory-resolver = "=0.25.2"
maxminddb = { version = "=0.32.0", features = ["mmap"] }
serde = { version = "=1.0.229", features = ["derive"] }
serde_json = "=1.0.154"
anyhow = "=1.0.104"
thiserror = "=2.0.21"
futures = "=0.3.34"
dotenvy = "=0.15.7"
jemallocator = "=0.5.4"
