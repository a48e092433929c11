[package]
name = "autothesis"
version = "0.1.0"
edition = "2021"
publish = false

[dependencies]
url = "2"
pulldown-cmark = { version = "0.12", default-features = false, features = ["html"] }
ammonia = "4"
scraper = "0.20"
anyhow = "1"
thiserror = "1"
serde = { version = "1", features = ["derive"] }
serde_json = "1"
chrono = { version = "0.4", features = ["serde"] }
uuid = { version = "1", features = ["v4"] }
dotenvy = "0.15"
tokio = { version = "1", features = ["macros", "rt-multi-thread", "net", "time", "sync"] }
axum = "0.7"
tower-http = { version = "0.5", features = ["fs", "trace"] }
reqwest = { version = "0.12", default-features = false, features = ["json"] }
rusqlite = { version = "0.31", features = ["bundled"] }
r2d2 = "0.8"
r2d2_sqlite = "0.24"
async-trait = "0.1"
tracing = "0.1"
tracing-subscriber = { version = "0.3", features = ["env-filter"] }
