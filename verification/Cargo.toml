[package]
name = "novel_downloader"
version = "0.1.0"
edition = "2021"
publish = false

[dependencies]
anyhow = "=1.0.104"
async-trait = "=0.1.92"
base64 = "=0.22.1"
clap = { version = "=4.6.7", features = ["derive"] }
crossterm = "=0.28.1"
flate2 = "=1.1.10"
futures = "=0.3.34"
indicatif = "=0.17.11"
mime_guess = "=2.0.5"
once_cell = "=1.21.4"
regex = "=1.13.1"
reqwest = { version = "=0.12.28", default-features = false, features = ["rustls-tls"] }
scraper = { version = "=0.20.0", features = ["deterministic"] }
serde = { version = "=1.0.229", features = ["derive"] }
serde_json = "=1.0.154"
thiserror = "=1.0.69"
tokio = { version = "=1.54.1", features = ["full"] }
unicode-normalization = "=0.1.26"
url = "=2.5.8"
