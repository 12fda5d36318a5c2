[package]
name = "roadmap_cli"
version = "0.1.0"
edition = "2021"
publish = false

[dependencies]
regex = "=1.13.1"
semver = "=1.0.28"
chrono = "=0.4.45"
serde = { version = "=1.0.229", features = ["derive"] }
serde_yaml = "=0.9.34"
serde_json = { version = "=1.0.154", features = ["preserve_order"] }
colored = "=2.2.0"
glob = "=0.3.4"
clap = { version = "=4.6.7", features = ["derive"] }
clap_complete = "=4.6.11"
clap_mangen = "=0.2.33"
reqwest = { version = "=0.12.28", default-features = false, features = ["blocking", "json", "rustls-tls"] }
flate2 = "=1.1.10"
tar = "=0.4.46"
tempfile = "=3.27.0"
axum = { version = "=0.8.9", features = ["ws"] }
tokio = { version = "=1.54.1", features = ["full"] }
tower-http = { version = "=0.6.11", features = ["cors"] }
dotenvy = "=0.15.7"
open = "=5.4.5"
uuid = { version = "=1.29.0", features = ["v4"] }
jsonwebtoken = "=9.3.1"
