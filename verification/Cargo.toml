[package]
name = "dendrite"
version = "0.1.0"
edition = "2021"
publish = false

[dependencies]
anyhow = "1"
async-stream = "0.3"
base64 = "0.13"
bytes = "1"
elasticsearch = { version = "8.5.0-alpha.1", default-features = false, features = ["rustls-tls"] }
futures-core = "0.3"
futures-util = "0.3"
log = "0.4"
prost = "0.13"
serde_json = "1"
sha2 = "0.10"
tokio = { version = "1", features = ["sync", "rt", "macros"] }
tonic = "0.12"
uuid = { version = "0.8", features = ["v4"] }
