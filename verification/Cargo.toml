[package]
name = "romer_chain"
version = "0.1.0"
edition = "2021"
publish = false

[dependencies]
bincode = "=1.3.3"
bs58 = "=0.5.1"
bytes = "=1.12.1"
clap = { version = "=4.6.7", features = ["derive"] }
commonware-consensus = "=0.0.14"
commonware-cryptography = "=0.0.25"
commonware-p2p = "=0.0.36"
commonware-runtime = "=0.0.22"
commonware-storage = "=0.0.17"
commonware-utils = "=0.0.9"
futures = "=0.3.34"
governor = "=0.10.4"
hex = "=0.4.3"
prometheus-client = "=0.25.1"
rand = "=0.8.8"
serde = { version = "=1.0.229", features = ["derive"] }
sha2 = "=0.10.9"
strum_macros = "=0.28.0"
thiserror = "=1.0.69"
tokio = { version = "=1.54.1", features = ["rt", "sync", "time", "macros"] }
toml = "=0.8.23"
tracing = "=0.1.44"
tracing-subscriber = "=0.3.23"
