[package]
name = "klayer"
version = "0.1.0"
edition = "2021"
publish = false

[dependencies]
anyhow = "1"
async-trait = "0.1"
axum = "0.8"
base64 = "=0.22.1"
chrono = "=0.4.45"
crossterm = "0.28"
libsql = { version = "=0.9.30", default-features = false, features = ["core"] }
libsql-rusqlite = "=0.9.30"
pdf-extract = "=0.12.1"
printpdf = { version = "=0.12.8", default-features = false }
rand = "=0.8.8"
ratatui = { version = "0.29", default-features = false, features = ["crossterm"] }
regex = "=1.13.1"
reqwest = { version = "0.12", default-features = false, features = ["json", "rustls-tls"] }
rmcp = { version = "=0.16.0", features = ["server", "transport-io"] }
scraper = "=0.29.0"
serde = { version = "1", features = ["derive"] }
serde_json = "=1.0.154"
sha2 = "=0.10.9"
sqlite-vec = "0.1"
tokio = { version = "1", features = ["full"] }
tower-http = { version = "0.6", features = ["cors"] }
tracing = "0.1"
tracing-subscriber = { version = "0.3", features = ["env-filter"] }
urlencoding = "=2.1.3"
zerocopy = "0.8"
