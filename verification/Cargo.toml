[package]
name = "wyrm"
version = "0.1.0"
edition = "2021"
publish = false

[dependencies]
chrono = "=0.4.45"
scraper = "=0.29.0"
reqwest = { version = "=0.13.5", default-features = false, features = ["gzip"] }
feed-rs = "=3.0.0"
serde = { version = "=1.0.229", features = ["derive"] }
serde_json = "=1.0.154"
bytes = "=1.12.1"
http = "=1.5.0"
reqwest-middleware = "=0.5.2"
reqwest-retry = "=0.9.1"
async-trait = "=0.1.92"
tokio = { version = "=1.54.1", features = ["time"] }
tracing = "=0.1.44"
rand = "0.9"
