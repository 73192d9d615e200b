[package]
name = "epicode_kb"
version = "0.4.0"
edition = "2021"
publish = false

[dependencies]
uuid = { version = "1", features = ["v4"] }
chrono = { version = "0.4", default-features = false, features = ["clock"] }
sha2 = "0.10"
hmac = "0.12"
bcrypt = "0.15"
pulldown-cmark = { version = "0.10", default-features = false }
serde = { version = "1", features = ["derive"] }
serde_json = "1"
jsonwebtoken = "9"
rusqlite = { version = "0.31", features = ["bundled"] }
tantivy = "0.22"
axum = { version = "0.7", features = ["ws", "multipart"] }
tokio = { version = "1", features = ["full"] }
tower-http = { version = "0.5", features = ["cors", "trace"] }
tracing = "0.1"
tracing-subscriber = { version = "0.3", features = ["env-filter"] }
dotenvy = "0.15"
anyhow = "1"
futures = "0.3"
tokio-stream = "0.1"
yrs = "0.21"
reqwest = { version = "0.12", default-features = false, features = ["json"] }
ureq = { version = "2", default-features = false }
prometheus = { version = "0.13", default-features = false }
async-trait = "0.1"
thiserror = "1"
