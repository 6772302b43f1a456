[package]
name = "ez_migrations"
version = "0.1.0"
edition = "2021"
publish = false

[dependencies]
keyring = { version = "=3.6.3", features = ["linux-native", "apple-native", "windows-native"] }
regex-syntax = "0.8"
serde = { version = "=1.0.229", features = ["derive"] }
serde_json = "=1.0.154"
tokio = { version = "=1.54.1", features = ["full"] }
tokio-util = { version = "=0.7.20", features = ["compat"] }
dirs = "=7.0.0"
notify = "=8.2.1"
axum = "=0.8.9"
rmcp = { version = "=3.8.0", features = ["server", "macros", "transport-streamable-http-server"] }
tiberius = { version = "=0.12.3", default-features = false, features = ["tds73", "rustls"] }
