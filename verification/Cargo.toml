[package]
name = "svr"
version = "0.1.0"
edition = "2021"
publish = false

[dependencies]
bytes = "1"
tracing = "0.1"
prost = "0.12"
tokio = { version = "1", features = ["full"] }
tokio-util = { version = "0.7", features = ["codec"] }
futures-util = { version = "0.3", features = ["sink"] }
tracing-subscriber = "0.3"
tracing-appender = "0.2"
chrono = "0.4"
config = { version = "0.13", default-features = false, features = ["toml", "json"] }
dashmap = "5"
serde = { version = "1", features = ["derive"] }
serde_json = "1"
async-trait = "0.1"
lazy_static = "1"
sqlx = { version = "0.7", default-features = false, features = ["mysql", "runtime-tokio"] }
bb8 = "0.8"
bb8-redis = "0.14"
redis = { version = "0.24", features = ["tokio-comp"] }
