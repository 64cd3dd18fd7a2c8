[package]
name = "archivehost"
version = "0.1.0"
edition = "2021"
publish = false

[dependencies]
chrono = { version = "=0.4.45", default-features = false, features = ["alloc", "std"] }
url = "=2.5.8"
urlencoding = "=2.1.3"
mime_guess = "=2.0.5"
http = "=1.5.0"
serde = { version = "=1.0.229", features = ["derive"] }
clap = { version = "=4.6.7", features = ["derive"] }
confy = "=0.6.1"
dirs = "=5.0.1"
reqwest = { version = "=0.12.28", default-features = false, features = ["json", "rustls-tls"] }
tokio = { version = "=1.54.1", features = ["full"] }
tokio-util = { version = "=0.7.20", features = ["io"] }
axum = "=0.8.9"
tower = "=0.5.3"
tower-http = { version = "=0.6.11", features = ["normalize-path", "trace", "fs"] }
sea-orm = { version = "=1.1.20", default-features = false, features = ["sqlx-sqlite", "runtime-tokio-rustls", "macros", "with-uuid"] }
uuid = { version = "=1.29.0", features = ["v7"] }
eyre = "=0.6.14"
tracing = "=0.1.44"
tracing-subscriber = { version = "=0.3.23", features = ["env-filter"] }
encoding_rs = "=0.8.44"
chardetng = "=0.1.17"
serde_url_params = "=0.2.1"
futures = "=0.3.34"
async-graphql = "=7.2.1"
async-graphql-axum = "=7.2.1"
bytes = "=1.12.1"
colored = "=2.2.0"
indicatif = "=0.17.11"
