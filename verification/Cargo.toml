[package]
name = "benchy"
version = "0.1.0"
edition = "2021"
publish = false

[dependencies]
anyhow = "=1.0.104"
csv = "=1.4.0"
env_logger = "=0.10.2"
futures = "=0.3.34"
graphql_client = "=0.13.0"
indicatif = "=0.18.6"
indicatif-log-bridge = "=0.2.3"
log = "=0.4.34"
once_cell = "=1.21.4"
reqwest = { version = "=0.11.27", default-features = false, features = ["json"] }
serde = { version = "=1.0.229", features = ["derive"] }
serde_json = "=1.0.154"
structopt = "=0.3.26"
tokio = { version = "=1.54.1", features = ["macros", "rt-multi-thread", "sync", "time"] }
url = { version = "=2.5.8", features = ["serde"] }
uuid = { version = "=1.29.0", features = ["v4", "serde"] }
