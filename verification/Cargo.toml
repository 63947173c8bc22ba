[package]
name = "steam_tradeoffer_manager"
version = "0.1.0"
edition = "2021"
publish = false

[dependencies]
steamid-ng = "=1.0.0"
lfu_cache = "=1.3.0"
tf2-price = "=0.14.0"
rand = "=0.8.8"
url = "=2.5.8"
chrono = { version = "=0.4.45", features = ["serde"] }
serde = { version = "=1.0.229", features = ["derive"] }
serde_json = "=1.0.154"
serde_repr = "=0.1.21"
reqwest = { version = "=0.12.28", default-features = false, features = ["cookies", "rustls-tls"] }
reqwest-middleware = "=0.4.2"
tokio = { version = "=1.54.1", features = ["rt-multi-thread", "macros", "sync", "time"] }
tokio-util = "=0.7.20"
async-fs = "=2.2.0"
futures = "=0.3.34"
directories = "=5.0.1"
log = "=0.4.35"
scraper = "=0.20.0"
thiserror = "=1.0.69"
lazy-regex = "3"
