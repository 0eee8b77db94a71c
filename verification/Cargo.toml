[package]
name = "linkly"
version = "0.1.0"
edition = "2021"
publish = false

[dependencies]
dashmap = "5"
uuid = { version = "1", features = ["v4"] }
woothee = "0.13"
rand = "0.8"
chrono = { version = "0.4", default-features = false, features = ["std", "clock"] }
anyhow = "1"
askama = "0.12"
async-trait = "0.1"
axum = "0.7"
axum-extra = { version = "0.9", features = ["cookie"] }
dotenvy = "0.15"
reqwest = { version = "0.12", default-features = false, features = ["json"] }
serde = { version = "1", features = ["derive"] }
sqlx = { version = "0.7", default-features = false, features = ["sqlite", "runtime-tokio", "chrono", "macros", "migrate"] }
time = "0.3"
tokio = { version = "1", features = ["rt-multi-thread", "macros", "net", "sync", "time"] }
tower-http = { version = "0.5", features = ["trace"] }
tracing = "0.1"
tracing-subscriber = { version = "0.3", features = ["env-filter"] }
