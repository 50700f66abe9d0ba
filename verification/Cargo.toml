[package]
name = "stock_trading"
version = "0.1.0"
edition = "2021"
publish = false

[dependencies]
async-graphql = { version = "7", default-features = false, features = ["playground"] }
async-graphql-warp = "7"
warp = "0.3"
reqwest = { version = "0.12", default-features = false, features = ["json", "rustls-tls"] }
serde = { version = "1", features = ["derive"] }
serde_json = "1"
tokio = { version = "1", features = ["macros", "rt-multi-thread"] }
tokio-postgres = "0.7"
tokio-stream = "0.1"
rdkafka = "0.36"
pretty_env_logger = "0.5"
log = "0.4"
