[package]
name = "rust_wal_cake_writer"
version = "0.1.0"
edition = "2021"
publish = false

[dependencies]
pg_walstream = "*"
pgwire-replication = "*"
serde = { version = "1", features = ["derive"] }
serde_json = "1"
bytes = "1"
arrow = { version = "*", default-features = false }
rdkafka = "*"
tokio = { version = "1", features = ["full"] }
tokio-postgres = "*"
toml = "*"
anyhow = "1"
chrono = "0.4"
parking_lot = "*"
tracing = "0.1"
tracing-appender = "*"
tracing-subscriber = { version = "0.3", features = ["env-filter"] }
