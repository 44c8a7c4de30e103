[package]
name = "catalog_search"
version = "0.1.0"
edition = "2021"
publish = false

[dependencies]
chrono = "=0.4.45"
url = "=2.5.8"
rss = { version = "=2.1.2", features = ["atom"] }
