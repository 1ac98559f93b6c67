[package]
name = "ont_scraper"
version = "0.1.0"
edition = "2021"
publish = false

[dependencies]
regex = "1"
base64 = "0.22"
reqwest = { version = "0.12", default-features = false, features = ["cookies"] }
tokio = { version = "1", features = ["rt-multi-thread", "macros", "time"] }
actix-web = { version = "4", default-features = false }
prometheus = { version = "0.13", default-features = false }
lazy_static = "1"
tracing = "0.1"
tracing-subscriber = { version = "0.3", features = ["env-filter", "json"] }
