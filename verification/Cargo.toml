[package]
name = "ddts_server"
version = "0.1.0"
edition = "2021"
publish = false

[dependencies]
rand = "0.8"
serde = { version = "1", features = ["derive"] }
serde_json = "1"
tokio = { version = "1", features = ["full"] }
protobuf = "3"
sysinfo = "0.30"
chrono = "0.4"
config = { version = "0.13", default-features = false, features = ["yaml"] }
dotenv = "0.15"
anyhow = "1"
tracing = "0.1"
