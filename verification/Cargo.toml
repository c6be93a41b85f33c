[package]
name = "eval_core"
version = "0.1.0"
edition = "2021"
publish = false

[dependencies]
anyhow = "=1.0.104"
chrono = "=0.4.45"
getrandom = "=0.2.17"
include_dir = "=0.7.4"
regex = "=1.13.1"
ron = "=0.8.1"
serde = { version = "=1.0.229", features = ["derive"] }
serde_json = "=1.0.154"
thiserror = "=1.0.69"
tracing = "=0.1.44"
ureq = { version = "=2.12.1", features = ["json"] }
