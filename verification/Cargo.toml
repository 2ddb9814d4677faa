[package]
name = "lo"
version = "0.1.0"
edition = "2021"
publish = false

[dependencies]
directories = "=6.0.0"
anyhow = "=1.0.104"
serde = { version = "=1.0.229", features = ["derive"] }
serde_json = "=1.0.154"
tokio = { version = "=1.54.1", features = ["rt", "macros", "sync", "time", "fs"] }
reqwest = { version = "=0.12.28", default-features = false, features = ["rustls-tls", "stream", "json"] }
futures-util = "=0.3.34"
thiserror = "=2.0.21"
tracing = "=0.1.44"
tracing-subscriber = { version = "=0.3.23", features = ["env-filter", "fmt"] }
dotenvy = "=0.15.7"
sysinfo = "=0.40.1"
arboard = { version = "=3.7.0", default-features = false }
notify-rust = "=4.18.2"
open = "=5.4.5"
chrono = "0.4"
