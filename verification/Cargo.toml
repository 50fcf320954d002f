[package]
name = "paper_core"
version = "0.1.0"
edition = "2021"
publish = false

[dependencies]
chrono = "=0.4.45"
url = "=2.5.8"
roxmltree = "=0.20.0"
reqwest = { version = "=0.12.28", default-features = false, features = ["json", "stream", "rustls-tls"] }
sha2 = "=0.10.9"
dirs = "=5.0.1"
serde = { version = "=1.0.229", features = ["derive"] }
serde_json = "=1.0.154"
serde_yaml_ng = "=0.10.0"
tokio = { version = "=1.54.1", features = ["rt-multi-thread", "fs", "io-util", "sync", "time", "macros"] }
futures = "=0.3.34"
governor = "=0.6.3"
failsafe = "=1.3.0"
backon = "=1.6.0"
async-trait = "=0.1.92"
anyhow = "=1.0.104"
clap = { version = "=4.6.7", features = ["derive"] }
figment = { version = "=0.10.19", features = ["yaml", "env"] }
thiserror = "=1.0.69"
