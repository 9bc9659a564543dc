[package]
name = "sqlx_tables"
version = "0.1.0"
edition = "2021"
publish = false

[dependencies]
im = "=15.1.0"
modular-agent-core = "=0.22.0"
modular-agent-kit = "=0.21.0"
serde_json = "=1.0.154"
sqlx = { version = "=0.8.6", default-features = false, features = ["any", "runtime-tokio", "sqlite", "mysql", "postgres"] }
