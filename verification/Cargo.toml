[package]
name = "bugcrowd_tracker"
version = "0.1.0"
edition = "2021"
publish = false

[dependencies]
anyhow = "1"
chrono = { version = "0.4", features = ["serde"] }
chrono-humanize = "0.2"
clap = { version = "4", features = ["derive", "env"] }
dateparser = "0.2"
futures = "0.3"
log = "0.4"
redis = { version = "*", features = ["tokio-comp", "connection-manager"] }
reqwest = { version = "0.12", default-features = false, features = ["json", "http2", "rustls-tls"] }
serde = { version = "1", features = ["derive"] }
serde_json = "1"
tokio = { version = "1", features = ["full"] }
tracing-subscriber = { version = "0.3", features = ["env-filter"] }
twilight-model = "*"
twilight-util = { version = "*", features = ["builder"] }
twilight-validate = "*"
