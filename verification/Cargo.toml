[package]
name = "account_sdk"
version = "0.1.0"
edition = "2021"
publish = false

[dependencies]
starknet = "*"
cainome = "*"
serde_json = "1"
serde = { version = "1", features = ["derive"] }
async-trait = "0.1"
thiserror = "1"
tokio = { version = "1", features = ["sync", "rt", "macros"] }
web-sys = { version = "0.3", features = ["Window", "Storage"] }
hyper = { version = "0.14", features = ["server", "client", "http1", "tcp"] }
anyhow = "1"
url = "2"
