[package]
name = "sc_scraper"
version = "0.1.0"
edition = "2021"
publish = false

[dependencies]
scraper = "*"
url = "*"
serde = { version = "*", features = ["derive"] }
chrono = { version = "*", features = ["serde"] }
