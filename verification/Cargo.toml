[package]
name = "buff_crawler"
version = "0.1.0"
edition = "2021"
publish = false

[dependencies]
chrono = "0.4"
rand = "0.8"
serde = { version = "1", features = ["derive"] }
serde_json = "1"
ureq = "2"
rusqlite = { version = "0.28", features = ["bundled"] }
axum = "0.5"
tower-http = { version = "0.3", features = ["fs"] }
tokio = { version = "1", features = ["full"] }
