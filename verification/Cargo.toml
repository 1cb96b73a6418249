[package]
name = "docln_fetch"
version = "0.1.0"
edition = "2021"
publish = false

[dependencies]
zip = "*"
chrono = "*"
anyhow = "*"
serde = { version = "*", features = ["derive"] }
reqwest = { version = "*", default-features = false }
scraper = "*"
tokio = { version = "*", features = ["rt-multi-thread", "macros", "time"] }
