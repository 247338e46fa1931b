[package]
name = "apk-fetch"
version = "0.1.0"
edition = "2021"
publish = false

[dependencies]
anyhow = "1"
chrono = "0.4"
clap = { version = "4", features = ["derive"] }
colored = "*"
form_urlencoded = "1"
percent-encoding = "2"
scraper = "*"
serde = { version = "1", features = ["derive"] }
serde_json = "1"
tokio = { version = "1", features = ["process", "rt", "sync", "time", "io-util", "fs", "signal", "macros"] }
unicode-width = "*"
