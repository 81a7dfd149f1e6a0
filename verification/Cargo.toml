[package]
name = "jp_router"
version = "0.1.0"
edition = "2021"
publish = false

[dependencies]
chrono = { version = "=0.4.45", features = ["serde"] }
percent-encoding = "=2.3.2"
anyhow = "=1.0.104"
arcstr = "=1.2.0"
axum = "=0.8.9"
axum-extra = { version = "=0.12.6", features = ["typed-header"] }
headers = "=0.4.2"
http = "=1.5.0"
tokio = { version = "=1.54.1", features = ["full"] }
reqwest = { version = "=0.12.28", features = ["json"] }
serde = { version = "=1.0.229", features = ["derive"] }
serde_yaml = "=0.9.34"
log = "=0.4.35"
netlink-packet-core = "=0.9.0"
netlink-packet-route = "=0.34.0"
netlink-proto = "=0.14.1"
futures = "=0.3.34"
tower = "=0.5.3"
tower-http = { version = "=0.6.11", features = ["cors"] }
itertools = "=0.15.0"
pretty_env_logger = "=0.5.0"
systemd-journal-logger = "=2.2.2"
gcloud-auth = "=1.4.0"
token-source = "=1.0.0"
yew-router = "*"
