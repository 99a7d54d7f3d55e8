[package]
name = "moneypool"
version = "0.1.0"
edition = "2021"
publish = false

[dependencies]
chrono = "=0.4.45"
confy = "=2.0.0"
futures = "=0.3.34"
mysql = { version = "=28.0.3", default-features = false, features = ["default-rust"] }
reqwest = { version = "=0.13.5", default-features = false }
scraper = "=0.27.0"
serde = { version = "=1.0.229", features = ["derive"] }
serde_json = "=1.0.151"
tokio = { version = "=1.53.2", features = ["macros", "rt", "rt-multi-thread"] }
