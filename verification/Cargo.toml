[package]
name = "cslt"
version = "0.1.0"
edition = "2021"
publish = false

[dependencies]
anyhow = "1"
async-trait = "0.1"
regex = "1"
reqwest = { version = "0.12", default-features = false, features = ["cookies", "blocking"] }
reqwest_cookie_store = "0.8"
scraper = "*"
