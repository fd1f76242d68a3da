[package]
name = "server_test_csharp"
version = "0.1.0"
edition = "2021"
publish = false

[dependencies]
regex = "=1.13.1"
rand = "=0.9.5"
infer = "=0.19.0"
chrono = "=0.4.45"
uuid = { version = "=1.29.1", features = ["v4", "serde"] }
sha3 = "=0.10.9"
hex = "=0.4.3"
axum = "=0.8.9"
tokio = { version = "=1.54.1", features = ["fs", "io-util", "rt", "macros"] }
serde = { version = "=1.0.229", features = ["derive"] }
serde_json = "=1.0.154"
rust_decimal = "=1.43.0"
rust_decimal_macros = "=1.40.0"
tracing = "=0.1.44"
utoipa = { version = "5", features = ["uuid", "decimal"] }
