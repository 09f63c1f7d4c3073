[package]
name = "cloud-sdk-azure-mock"
version = "0.1.0"
edition = "2021"
publish = false

[dependencies]
uuid = { version = "=1.29.0", features = ["v4"] }
chrono = { version = "=0.4.45", default-features = false, features = ["clock", "std"] }
url = "=2.5.8"
axum = "=0.8.9"
tokio = { version = "=1.54.1", features = ["rt-multi-thread", "net", "sync", "time", "macros", "process"] }
serde = { version = "=1.0.229", features = ["derive"] }
serde_json = "=1.0.154"
toml = "=0.8.23"
http = "=1.5.0"
bytes = "=1.12.1"
thiserror = "=2.0.21"
reqwest = { version = "0.12", default-features = false, features = ["json"] }
