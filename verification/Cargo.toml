[package]
name = "holosite"
version = "0.1.0"
edition = "2021"
publish = false

[dependencies]
actix-web = "4"
actix-session = { version = "0.6", features = ["redis-rs-session"] }
actix-web-flash-messages = { version = "0.4", features = ["cookies"] }
actix-web-lab = "0.16"
actix-files = "0.6"
anyhow = "1"
askama = "0.11"
chrono = "0.4"
diesel = { version = "1.4", features = ["sqlite", "r2d2"] }
num_cpus = "1"
secrecy = { version = "0.8", features = ["serde"] }
serde = { version = "1", features = ["derive"] }
serde_json = "1"
thiserror = "1"
tracing = "0.1"
tracing-actix-web = "0.6"
uuid = { version = "1", features = ["v4"] }
