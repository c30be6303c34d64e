[package]
name = "opt_scraper"
version = "0.1.0"
edition = "2021"
publish = false

[dependencies]
tokio = { version = "1", features = ["rt-multi-thread", "macros", "fs", "io-util"] }
reqwest = { version = "0.11", default-features = false, features = ["rustls-tls", "gzip"] }
futures = "0.3"
backoff = { version = "0.4", features = ["tokio"] }
clap = "2"
env_logger = "0.10"
