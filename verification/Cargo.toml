[package]
name = "central-logs"
version = "0.1.0"
edition = "2021"
publish = false

[dependencies]
sha2 = "=0.10.9"
serde_json = "=1.0.154"
serde = { version = "1", features = ["derive"] }
chrono = { version = "=0.4.45", features = ["serde"] }
chrono-tz = "=0.10.4"
base64 = "=0.22.1"
bytes = "1"
hyper = { version = "1", features = ["client", "http1"] }
hyper-util = { version = "0.1", features = ["tokio"] }
tower-http = { version = "0.6", features = ["limit", "decompression-gzip", "decompression-deflate"] }
rmcp = { version = "*", features = ["server", "macros", "transport-io"] }
flate2 = "=1.1.10"
syslog_loose = "=0.23.0"
prost = "=0.14.4"
opentelemetry-proto = { version = "=0.33.1", default-features = false, features = ["gen-tonic-messages", "trace", "logs", "metrics", "with-serde"] }
tokio = { version = "1", features = ["full"] }
tokio-util = "0.7"
axum = "0.8"
reqwest = { version = "0.12", default-features = false, features = ["json", "stream", "rustls-tls"] }
lettre = { version = "0.11", default-features = false, features = ["builder", "smtp-transport", "rustls-tls"] }
clap = { version = "4", features = ["derive", "env"] }
figment = { version = "0.10", features = ["toml", "env"] }
augurs-core = "0.10"
augurs-ets = { version = "0.10", features = ["mstl"] }
augurs-mstl = "0.10"
duckdb = { version = "1", default-features = false }
maxminddb = "*"
dotenvy = "0.15"
tracing = "0.1"
tracing-subscriber = { version = "0.3", features = ["env-filter"] }
