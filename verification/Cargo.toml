[package]
name = "samplegraph"
version = "0.1.0"
edition = "2021"
publish = false

[dependencies]
actix-web = "=4.18.1"
actix-web-lab = { version = "=0.29.5", features = ["spa"] }
env_logger = "=0.11.11"
flate2 = "=1.1.10"
futures = "=0.3.34"
http = "=0.2.12"
log = "=0.4.34"
megamind = "=0.13.0"
moka = { version = "=0.12.16", features = ["future"] }
petgraph = "=0.6.5"
redis = { version = "=1.8.0", features = ["tokio-comp"] }
serde = { version = "=1.0.229", features = ["derive"] }
serde_json = "=1.0.154"
thiserror = "=1.0.69"
tokio = { version = "=1.54.1", features = ["macros", "rt-multi-thread", "sync", "time"] }
ts-rs = "=12.0.1"
