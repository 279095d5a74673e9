[package]
name = "otrecorder"
version = "0.1.0"
edition = "2021"
publish = false

[dependencies]
anyhow = "1"
arrow-array = "53"
arrow-schema = "53"
axum = "0.7"
chrono = "0.4"
clap = { version = "4", features = ["derive"] }
dirs = "5"
parquet = { version = "53", default-features = false, features = ["arrow", "zstd"] }
r2d2 = "0.8"
r2d2_sqlite = "0.24"
rumqttc = "0.24"
rusqlite = { version = "0.31", features = ["bundled"] }
rustls = "0.22"
rustls-native-certs = "0.7"
serde = { version = "1", features = ["derive"] }
serde_json = "1"
tokio = { version = "1", features = ["full"] }
toml = "0.8"
tower-http = { version = "0.5", features = ["cors", "fs", "trace"] }
tracing = "0.1"
tracing-subscriber = { version = "0.3", features = ["env-filter"] }
