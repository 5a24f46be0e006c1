[package]
name = "kubelet"
version = "0.1.0"
edition = "2021"
publish = false

[dependencies]
anyhow = "1"
axum = "0.7"
bollard = "0.18"
chrono = "0.4"
futures = "0.3"
futures-util = "0.3"
http = "1"
prost = "0.13"
reqwest = { version = "0.12", default-features = false, features = ["rustls-tls"] }
serde = { version = "1", features = ["derive"] }
serde_json = "1"
tar = "0.4"
tokio = { version = "1", features = ["full"] }
tonic = "0.12"
tracing = "0.1"
