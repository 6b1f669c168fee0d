[package]
name = "stratum_tunnel"
version = "0.1.0"
edition = "2021"
publish = false

[dependencies]
serde_json = "=1.0.151"
serde = { version = "=1.0.229", features = ["derive"] }
serde_yaml = "=0.9.34"
tokio = { version = "=1.53.2", features = ["full"] }
axum = { version = "=0.8.9", features = ["ws"] }
tower-http = { version = "=0.7.1", features = ["cors"] }
clap = { version = "=4.6.7", features = ["derive"] }
anyhow = "=1.0.104"
chrono = "=0.4.45"
sysinfo = "=0.39.6"
reqwest = { version = "=0.13.5", default-features = false }
