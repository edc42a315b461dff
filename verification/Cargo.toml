[package]
name = "scrape_pipeline"
version = "0.1.0"
edition = "2021"
publish = false

[dependencies]
anyhow = "1"
clap = { version = "4", features = ["derive"] }
color-eyre = "0.6"
futures = "0.3"
futures-timer = "3"
sanitize-filename-reader-friendly = "*"
scraper = "*"
serde = { version = "1", features = ["derive"] }
serde_yaml = "0.9"
tokio = { version = "1", features = ["full"] }
tracing = "0.1"
tracing-subscriber = { version = "0.3", features = ["env-filter"] }
tracing-tree = "0.3"
ureq = "2"
url = "2"
urlencoding = "2"
voyager = "*"
