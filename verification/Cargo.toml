[package]
name = "crypto_market_connector"
version = "0.1.0"
edition = "2021"
publish = false

[dependencies]
axum = "=0.7.9"
binance-sdk = { version = "=77.2.0", features = ["spot"] }
chrono = "=0.4.45"
coinbase-advanced = "=2.0.2"
envy = "=0.4.2"
log = "=0.4.35"
reqwest = { version = "=0.13.5", features = ["json", "query"] }
serde = { version = "=1.0.229", features = ["derive"] }
tokio = { version = "=1.54.1", features = ["full"] }
tracing = "=0.1.44"
tracing-subscriber = { version = "=0.3.23", features = ["env-filter"] }
