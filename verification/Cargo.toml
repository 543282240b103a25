[package]
name = "chet"
version = "0.1.0"
edition = "2021"
publish = false

[dependencies]
serde_json = "=1.0.154"
serde = { version = "=1.0.229", features = ["derive"] }
globset = "=0.4.20"
rand = "=0.9.5"
bytes = "=1.12.1"
futures-core = "=0.3.34"
futures-util = "=0.3.34"
tokio = { version = "=1.54.1", features = ["rt-multi-thread", "macros", "time", "process", "io-util", "io-std", "sync", "fs", "signal"] }
tokio-util = "=0.7.20"
reqwest = { version = "=0.12.28", default-features = false, features = ["stream", "rustls-tls"] }
crossterm = "0.28"
syntect = { version = "5", default-features = false, features = ["default-fancy"] }
uuid = { version = "1", features = ["v4", "serde"] }
chrono = { version = "0.4", features = ["serde"] }
toml = "0.8"
dirs-next = "2"
walkdir = "2"
clap = { version = "4", features = ["derive"] }
grep-regex = "0.1"
grep-searcher = "0.1"
anyhow = "1"
thiserror = "1"
