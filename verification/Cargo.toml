[package]
name = "fuel-indexer"
version = "0.1.0"
edition = "2021"
publish = false

[dependencies]
async-std = { version = "1", default-features = false, features = ["std"] }
axum = { version = "0.6", features = ["multipart"] }
fuel-crypto = "0.26"
futures = "0.3"
http = "0.2"
hyper = { version = "0.14", features = ["client", "http1", "http2", "runtime"] }
hyper-rustls = { version = "0.23", features = ["http2"] }
jsonwebtoken = "8"
serde = { version = "1", features = ["derive"] }
serde_json = "1"
serde_yaml = "0.8"
sqlx = { version = "0.6", default-features = false, features = ["postgres", "runtime-tokio-rustls"] }
tokio = { version = "1", features = ["macros", "rt-multi-thread", "sync", "time"] }
tracing = "0.1"
wasmer = "2.3"
