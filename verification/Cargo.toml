[package]
name = "rdns"
version = "0.1.0"
edition = "2021"
publish = false

[dependencies]
anyhow = "1"
async-trait = "0.1"
chrono = "0.4"
chrono-tz = "0.10"
clap = { version = "4", features = ["derive"] }
futures = "0.3"
futures-util = "0.3"
hickory-client = "0.25"
hickory-proto = { version = "0.25", features = ["https-ring", "tls-ring"] }
hickory-server = "0.25"
moka = { version = "0.12", features = ["sync"] }
rustls = { version = "0.23", default-features = false, features = ["ring", "std", "tls12", "logging"] }
serde = { version = "1", features = ["derive"] }
serde_yaml = "0.9"
tokio = { version = "1", features = ["full"] }
tracing = "0.1"
tracing-appender = "0.2"
tracing-subscriber = "0.3"
url = "2"
webpki-roots = "0.26"
