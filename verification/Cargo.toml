[package]
name = "partition_store"
version = "0.1.0"
edition = "2021"
publish = false

[dependencies]
actix-web = "=4.15.0"
anyhow = "=1.0.104"
async-duckdb = { version = "=0.3.1", default-features = false }
chrono = { version = "=0.4.45", features = ["serde"] }
duckdb = { version = "=1.10506.0", default-features = false }
glob = "=0.3.4"
serde = { version = "=1.0.229", features = ["derive"] }
