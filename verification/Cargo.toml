[package]
name = "simply_ip_sync"
version = "0.1.0"
edition = "2021"
publish = false

[dependencies]
async-trait = "=0.1.92"
axum = "=0.8.9"
chacha20poly1305 = "=0.11.0"
chrono = { version = "=0.4.45", features = ["serde"] }
croner = "=2.2.0"
dotenvy = "=0.15.7"
hex = "=0.4.3"
hmac = "=0.13.0"
ipnetwork = "=0.21.1"
rand = "=0.10.3"
regex = "=1.13.1"
reqwest = { version = "=0.13.5", default-features = false, features = ["json", "rustls", "http2", "gzip", "deflate", "brotli", "zstd"] }
sea-orm = { version = "=2.0.4", default-features = false, features = ["macros", "with-chrono", "with-json", "with-uuid", "runtime-tokio", "sqlx-sqlite"] }
sea-orm-migration = { version = "=2.0.4", default-features = false, features = ["runtime-tokio", "sqlx-sqlite"] }
serde = { version = "=1.0.229", features = ["derive"] }
serde_json = "=1.0.154"
sha2 = "=0.11.1"
thiserror = "=2.0.21"
tokio = { version = "=1.54.1", features = ["macros", "rt-multi-thread", "net", "signal", "sync", "time"] }
tokio-cron-scheduler = "0.14"
tower-http = { version = "=0.7.1", features = ["fs", "trace"] }
tracing = "=0.1.44"
tracing-subscriber = { version = "=0.3.23", features = ["env-filter"] }
uuid = { version = "=1.29.0", features = ["v4", "serde"] }
zip = { version = "=9.2.2", default-features = false, features = ["deflate"] }
