[package]
name = "docker-checker"
version = "0.1.0"
edition = "2021"
publish = false

[dependencies]
bollard = "0.18"
clap = { version = "4", features = ["derive"] }
colored = "2"
futures = "0.3"
reqwest = { version = "0.12", default-features = false, features = ["rustls-tls"] }
serde = { version = "1", features = ["derive"] }
serde_json = "1"
thiserror = "2"
tokio = { version = "1", features = ["full"] }
