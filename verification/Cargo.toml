[package]
name = "allrisbot"
version = "0.1.0"
edition = "2021"
publish = false

[dependencies]
async-stream = "=0.3.6"
chrono = { version = "=0.4.45", features = ["serde"] }
clap = { version = "=4.6.7", features = ["derive", "env"] }
env_logger = "=0.11.11"
frankenstein = { version = "=0.44.0", default-features = false, features = ["client-reqwest"] }
futures-util = "=0.3.34"
log = "=0.4.35"
rand = "=0.9.5"
redis = { version = "=0.32.7", features = ["tokio-comp"] }
regex = "=1.13.1"
reqwest = { version = "=0.12.28", default-features = false, features = ["json", "rustls-tls"] }
scraper = "=0.29.0"
serde = { version = "=1.0.229", features = ["derive"] }
serde-xml-rs = "=0.6.0"
serde_json = "=1.0.154"
takecell = "=0.1.1"
teloxide = { version = "=0.13.0", default-features = false }
thiserror = "=2.0.21"
tokio = { version = "=1.54.1", features = ["full"] }
tokio-retry = "=0.3.2"
tokio-stream = "=0.1.19"
tracing = "=0.1.44"
url = { version = "=2.5.8", features = ["serde"] }
