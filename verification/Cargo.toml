[package]
name = "botejao"
version = "0.1.0"
edition = "2021"
publish = false

[dependencies]
chrono = "=0.4.45"
difference = "=2.0.0"
scraper = "=0.29.0"
encoding = "=0.2.33"
serde = { version = "=1.0.229", features = ["derive"] }
log = "=0.4.35"
thiserror = "=1.0.69"
flexi_logger = "=0.15.12"
time = "=0.1.45"
failure = "=0.1.8"
failure_derive = "=0.1.8"
tokio = { version = "=0.2.25", features = ["macros", "rt-threaded"] }
teloxide = "=0.2.0"
async-std = "=1.13.2"
surf = { version = "=2.3.2", default-features = false, features = ["h1-client-rustls"] }
