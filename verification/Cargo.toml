[package]
name = "vidscrape"
version = "0.1.0"
edition = "2021"
publish = false

[dependencies]
simd-json = "*"
scraper = "*"
reqwest = { version = "*", default-features = false, features = ["blocking"] }
