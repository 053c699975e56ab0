[package]
name = "eventador"
version = "0.1.0"
edition = "2021"
publish = false

[dependencies]
anyhow = "=1.0.104"
async-channel = "=1.9.0"
async-std = { version = "=1.13.2", features = ["attributes"] }
async-stream = "=0.3.6"
async-tls = "=0.11.0"
bincode = "=1.3.3"
bytes = "=1.12.1"
crossbeam = "=0.8.5"
crossbeam-channel = "=0.5.17"
crossbeam-epoch = "=0.9.21"
dashmap = "=4.0.2"
env_logger = "=0.8.4"
futures = "=0.3.34"
futures-lite = "=1.13.0"
futures-util = "=0.3.34"
lockfree = "=0.5.1"
log = "=0.4.35"
mio = { version = "=0.7.14", features = ["os-poll", "net"] }
rmp-serde = "=1.3.1"
rustls = "=0.19.1"
serde = { version = "=1.0.229", features = ["derive"] }
uuid = { version = "=0.8.2", features = ["v4"] }
