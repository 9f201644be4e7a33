[package]
name = "metrics_service"
version = "0.1.0"
edition = "2021"
publish = false

[dependencies]
chrono = "0.4"
actix-web = "4"
actix-cors = "0.7"
awc = "3"
serde = { version = "1", features = ["derive"] }
serde_json = "1"
sysinfo = "0.33"
env_logger = "0.11"
num_cpus = "1"
