[package]
name = "report_etl"
version = "0.1.0"
edition = "2021"
publish = false

[dependencies]
clap = { version = "=4.6.7", features = ["derive"] }
csv = "=1.4.0"
scraper = "=0.29.0"
serde = { version = "=1.0.229", features = ["derive"] }
