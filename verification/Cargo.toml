[package]
name = "warehouse"
version = "0.1.0"
edition = "2021"
publish = false

[dependencies]
anyhow = "1"
apache-avro = "0.17"
axum = "0.7"
chrono = { version = "0.4", features = ["serde"] }
dashmap = "6"
dotenvy = "0.15"
lazy_static = "1"
prometheus = { version = "0.13", default-features = false }
rdkafka = { version = "0.36", default-features = false, features = ["tokio"] }
reqwest = { version = "0.12", default-features = false, features = ["json"] }
scylla = { version = "1", features = ["chrono-04"] }
serde = { version = "1", features = ["derive"] }
serde_json = "1"
tokio = { version = "1", features = ["macros", "net", "rt-multi-thread", "time"] }
tracing = "0.1"
tracing-subscriber = { version = "0.3", features = ["env-filter"] }
uuid = { version = "1", features = ["v4"] }
