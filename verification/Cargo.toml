[package]
name = "orchestrator"
version = "0.1.0"
edition = "2021"
publish = false

[dependencies]
axum = "=0.7.9"
axum-macros = "=0.4.2"
axum-server = { version = "0.7", features = ["tls-rustls"] }
bollard = "=0.17.1"
dotenv = "=0.15.0"
hyper = "=1.12.0"
mongodb = "=2.8.2"
rand = "=0.8.8"
reqwest = { version = "=0.12.28", default-features = false, features = ["rustls-tls"] }
serde = { version = "=1.0.229", features = ["derive"] }
tokio = { version = "=1.54.1", features = ["full"] }
