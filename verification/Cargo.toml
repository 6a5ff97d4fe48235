[package]
name = "gcli"
version = "3.0.1"
edition = "2021"
publish = false

[dependencies]
anyhow = "=1.0.104"
base64 = "=0.22.1"
chrono = "=0.4.45"
clap = { version = "=4.6.7", features = ["derive"] }
colored = "=2.2.0"
dialoguer = "=0.11.0"
dirs = "=5.0.1"
git2 = "=0.21.0"
hound = "=3.5.1"
ppt-rs = "=0.2.37"
rand = "=0.8.8"
regex = "=1.13.1"
reqwest = { version = "=0.12.28", default-features = false, features = ["json", "rustls-tls"] }
self_update = { version = "=0.44.0", default-features = false, features = ["ureq", "rustls", "archive-tar", "compression-flate2"] }
serde = { version = "=1.0.229", features = ["derive"] }
serde_json = "=1.0.154"
tokio = { version = "=1.54.1", features = ["full"] }
walkdir = "=2.5.0"
