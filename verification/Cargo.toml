[package]
name = "simln"
version = "0.1.0"
edition = "2021"
publish = false

[dependencies]
anyhow = "=1.0.104"
async-trait = "=0.1.92"
bitcoin = { version = "=0.30.3", features = ["rand"] }
bitcoincore-rpc = "=0.17.0"
clap = { version = "=4.6.7", features = ["derive"] }
cln-grpc = "=0.1.9"
config = { version = "=0.14.1", default-features = false, features = ["ini"] }
csv = "=1.4.0"
ctrlc = "=3.5.2"
dialoguer = "=0.11.0"
expanduser = "=1.2.2"
fedimint-tonic-lnd = "=0.2.0"
hex = "=0.4.3"
lightning = "=0.0.123"
log = "=0.4.35"
rand = "=0.8.8"
rand_chacha = "=0.3.1"
rand_distr = "=0.4.3"
reqwest = { version = "=0.12.28", default-features = false, features = ["json", "multipart"] }
serde = { version = "=1.0.229", features = ["derive"] }
serde_json = "=1.0.154"
simple_logger = "=5.2.0"
testcontainers = "=0.23.3"
thiserror = "=1.0.69"
tokio = { version = "=1.54.1", features = ["full", "test-util"] }
tokio-util = { version = "=0.7.20", features = ["rt"] }
tonic = { version = "=0.8.3", features = ["tls", "transport"] }
triggered = "=0.1.3"
