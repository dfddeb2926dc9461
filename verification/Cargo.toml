[package]
name = "todos"
version = "0.1.0"
edition = "2021"
publish = false

[dependencies]
uuid = { version = "=1.29.0", features = ["v4", "serde"] }
dirs = "=7.0.0"
crossterm = "=0.28.1"
ratatui = "=0.29.0"
serde = { version = "=1.0.229", features = ["derive"] }
serde_json = "=1.0.154"
clap = { version = "=4.6.7", features = ["derive"] }
color-eyre = "=0.6.5"
dotenvy = "=0.15.7"
chrono = "=0.4.45"
reqwest = { version = "=0.12.28", default-features = false, features = ["blocking", "json", "rustls-tls"] }
eventkit-rs = { version = "=0.5.6", default-features = false }
