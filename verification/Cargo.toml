[package]
name = "wikistream_ingest"
version = "0.2.0"
edition = "2021"
publish = false

[dependencies]
anyhow = "1"
bincode = "1"
chrono = "0.4"
flate2 = "1"
futures-util = "0.3"
hyperloglogplus = "0.4"
reqwest = { version = "0.12", default-features = false, features = ["rustls-tls"] }
reqwest-eventsource = "0.6"
serde = { version = "1", features = ["derive"] }
serde_json = "1"
sqlx = { version = "0.8", default-features = false, features = ["runtime-tokio", "tls-rustls", "postgres", "chrono"] }
tokio = { version = "1", features = ["macros", "rt-multi-thread", "sync", "time"] }
