[package]
name = "web_search"
version = "0.1.0"
edition = "2021"
publish = false

[dependencies]
regex = "=1.13.1"
serde = { version = "=1.0.229", features = ["derive"] }
serde_json = "=1.0.154"
urlencoding = "=2.1.3"
url = "=2.5.8"
scraper = "=0.29.0"
reqwest = { version = "=0.12.28", default-features = false, features = ["json"] }
tokio = { version = "=1.54.1", features = ["macros", "rt-multi-thread", "net", "sync"] }
axum = "=0.8.9"
clap = { version = "=4.6.7", features = ["derive"] }
tower-http = { version = "=0.6.11", features = ["cors"] }
tracing = "=0.1.44"
tracing-subscriber = { version = "=0.3.23", default-features = false, features = ["env-filter", "fmt"] }
thiserror = "=2.0.21"
async-trait = "=0.1.92"
futures = "=0.3.34"
chrono = { version = "=0.4.45", default-features = false, features = ["clock"] }
