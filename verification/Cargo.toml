[package]
name = "iceberg_catalog"
version = "0.1.0"
edition = "2021"
publish = false

[dependencies]
uuid = { version = "=1.29.0", features = ["v7", "serde"] }
chrono = "=0.4.45"
http = "=1.5.0"
iceberg = "=0.10.1"
serde = { version = "=1.0.229", features = ["derive"] }
serde_json = "=1.0.154"
async-trait = "=0.1.92"
utoipa = { version = "=6.0.0", features = ["uuid"] }
