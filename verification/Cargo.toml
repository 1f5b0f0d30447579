[package]
name = "deadline_checker"
version = "0.1.0"
edition = "2021"
publish = false

[dependencies]
clap = "2"
csv = "1"
futures = "0.1"
hex = "0.4"
hyper = "0.12"
hyper-tls = "0.3"
jsonrpc = "0.11"
pbr = "1"
rayon = "1"
serde = { version = "1", features = ["derive"] }
serde_derive = "1"
serde_json = "1"
shabal = "0.4"
tokio = "0.1"
tokio-core = "0.1"
