[package]
name = "rupee"
version = "0.1.0"
edition = "2021"
publish = false

[dependencies]
anyhow = "=1.0.104"
calamine = "=0.38.0"
chrono = "=0.4.45"
clap = { version = "=4.6.7", features = ["derive"] }
comfy-table = "=7.2.2"
csv = "=1.4.0"
diesel = { version = "=2.3.14", features = ["postgres", "chrono", "uuid"] }
diesel_migrations = "=2.3.2"
dirs = "=7.0.0"
dotenvy = "=0.15.7"
futures = "=0.3.34"
http-cache = { version = "=0.21.0", default-features = false, features = ["manager-cacache", "cacache-tokio"] }
http-cache-reqwest = "=0.16.0"
postgresql_embedded = "=0.22.0"
reqwest = { version = "=0.12.28", features = ["json"] }
reqwest-middleware = "=0.4.2"
rusty-money = "=0.5.1"
serde = { version = "=1.0.229", features = ["derive"] }
serde_json = "=1.0.154"
tokio = { version = "=1.54.1", features = ["macros", "rt-multi-thread", "time"] }
tracing = "=0.1.44"
uuid = { version = "=1.29.1", features = ["v7"] }
zip = { version = "=9.2.2", default-features = false, features = ["deflate-flate2"] }
