[package]
name = "comcigan_rs"
version = "0.1.0"
edition = "2021"
publish = false

[dependencies]
anyhow = "1"
async-trait = "0.1"
base64 = "0.13"
bytes = "1"
encoding_rs = "0.8"
fancy-regex = "0.11"
gloo-net = { version = "0.2", default-features = false, features = ["http"] }
hyper = { version = "0.14", features = ["client", "http1", "tcp"] }
log = "0.4"
serde = { version = "1", features = ["derive"] }
serde_json = "1"
simple_logger = "4"
tokio = { version = "1", features = ["macros", "rt-multi-thread"] }
