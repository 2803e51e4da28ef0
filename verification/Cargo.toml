[package]
name = "koharu_project"
version = "0.1.0"
edition = "2021"
publish = false

[dependencies]
anyhow = "=1.0.104"
atomicwrites = "=0.4.4"
axum = "=0.8.9"
camino = "=1.2.6"
chrono = { version = "=0.4.45", features = ["serde"] }
fs4 = "=1.1.0"
indexmap = { version = "=2.14.2", features = ["serde"] }
parking_lot = "=0.13.0"
postcard = { version = "=1.1.3", features = ["use-std"] }
serde = { version = "=1.0.229", features = ["derive"] }
serde_json = "=1.0.154"
toml = "=1.1.8"
tracing = "=0.1.44"
utoipa = { version = "=6.0.0", features = ["axum_extras"] }
utoipa-axum = "=0.3.0"
uuid = { version = "=1.29.0", features = ["v7"] }
