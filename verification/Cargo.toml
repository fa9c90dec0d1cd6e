[package]
name = "caliban"
version = "0.1.0"
edition = "2021"
publish = false

[dependencies]
base64 = "0.22"
nucleo-matcher = "0.3"
serde_json = "1"
rust_decimal = "1"
ratatui = "0.29"
crossterm = "0.28"
chrono = "0.4"
dirs = "*"
tempfile = "3"
thiserror = "2"
uuid = { version = "1", features = ["v4"] }
tokio = { version = "1", features = ["sync", "time", "rt"] }
