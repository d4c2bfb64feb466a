[package]
name = "timefusion"
version = "0.1.0"
edition = "2021"
publish = false

[dependencies]
actix-web = { version = "4", default-features = false, features = ["macros"] }
anyhow = "1"
arrow-schema = "54"
async-trait = "0.1"
bcrypt = "0.17"
bytes = "1"
chrono = { version = "0.4", features = ["serde"] }
datafusion = { version = "45.0.0", default-features = false }
dotenv = "0.15"
futures = "0.3"
log = "0.4"
pgwire = { version = "0.28.0", default-features = false, features = ["server-api-ring"] }
serde = { version = "1", features = ["derive"] }
serde_arrow = { version = "0.13", features = ["arrow-54"] }
serde_json = "1"
tokio = { version = "1", features = ["rt-multi-thread", "macros", "net", "sync", "time", "signal"] }
tokio-util = "0.7"
tracing = "0.1"
tracing-subscriber = { version = "0.3", features = ["env-filter"] }
url = "2"
