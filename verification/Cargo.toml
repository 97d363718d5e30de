[package]
name = "apalis-surrealdb"
version = "0.1.0"
edition = "2021"
publish = false

[dependencies]
apalis-core = "=1.0.0-rc.9"
apalis-sql = "=1.0.0-rc.9"
chrono = "=0.4.45"
futures = "=0.3.34"
log = "=0.4.35"
pin-project = "=1.1.13"
serde = { version = "=1.0.229", features = ["derive"] }
serde_json = "=1.0.154"
surrealdb = { version = "=3.3.5", default-features = false }
thiserror = "=2.0.21"
ulid = "=1.2.1"
