[package]
name = "drone_logbook"
version = "0.1.0"
edition = "2021"
publish = false

[dependencies]
sha2 = "0.10"
chrono = "0.4"
serde_json = "1"
serde = { version = "1", features = ["derive"] }
dji-log-parser = "*"
reverse_geocoder = "*"
duckdb = "*"
tokio = { version = "1", features = ["full"] }
log = "0.4"
env_logger = "*"
thiserror = "*"
flate2 = "1"
tar = "0.4"
uuid = { version = "1", features = ["v4"] }
axum = { version = "0.7", features = ["multipart"] }
tower-http = { version = "*", features = ["cors"] }
