[package]
name = "framework"
version = "0.1.0"
edition = "2021"
publish = false

[dependencies]
regex = "=1.13.1"
hyper = { version = "=1.12.0", features = ["server", "http1", "http2"] }
hyper-util = { version = "=0.1.21", features = ["tokio", "server", "server-auto", "http1", "http2"] }
http-body-util = "=0.1.5"
tokio = { version = "=1.54.1", features = ["rt-multi-thread", "net", "fs", "io-util", "macros"] }
futures = "=0.3.34"
minijinja = { version = "=2.24.0", features = ["loader"] }
minijinja-autoreload = "=2.24.0"
serde = { version = "=1.0.229", features = ["derive"] }
serde_json = "=1.0.154"
chrono = "=0.4.45"
dotenvy = "=0.15.7"
log = "=0.4.35"
async-trait = "=0.1.92"
sea-orm = { version = "=2.0.4", default-features = false, features = ["macros", "runtime-tokio-rustls", "sqlx-sqlite", "entity-registry", "schema-sync"] }
