[package]
name = "stacks_exchange"
version = "0.1.0"
edition = "2021"
publish = false

[dependencies]
actix-files = "=0.4.1"
actix-rt = "=1.1.1"
actix-web = "=3.3.3"
anyhow = "=1.0.104"
async-graphql = { version = "=2.11.3", features = ["log"] }
async-graphql-actix-web = "=2.11.3"
base64 = "=0.13.1"
bytes = "=0.5.6"
cache_control = "=0.1.0"
config = "=0.10.1"
diesel = { version = "=1.4.8", features = ["postgres", "r2d2", "uuidv07"] }
diesel-derive-enum = { version = "=1.1.2", features = ["postgres"] }
dotenv = "=0.15.0"
futures = "=0.3.34"
hyper = "=0.13.10"
hyper-rustls = "=0.21.0"
jsonwebtoken = "=7.2.0"
listenfd = "=0.3.5"
log = "=0.4.35"
pretty_env_logger = "=0.4.0"
rmp = "=0.8.10"
rmp-serde = "=0.14.4"
serde = { version = "=1.0.229", features = ["derive"] }
serde_bytes = "=0.11.19"
serde_json = "=1.0.154"
structopt = "=0.3.26"
thiserror = "=1.0.69"
tokio-diesel = "=0.3.0"
uuid = { version = "=0.8.2", features = ["v4", "serde"] }
