[package]
name = "jumpserver-client"
version = "0.1.0"
edition = "2021"
publish = false

[dependencies]
chrono = "=0.4.45"
log = "=0.4.34"
reqwest = { version = "=0.12.28", features = ["json"] }
serde = { version = "=1.0.229", features = ["derive"] }
serde_json = "=1.0.154"
tokio = { version = "=1.54.1", features = ["time", "macros", "rt"] }
url = "=2.5.8"
