[package]
name = "tycho"
version = "0.1.0"
edition = "2021"
publish = false

[dependencies]
anyhow = "=1.0.104"
blake3 = "=1.8.7"
bumpalo = "=3.20.3"
clap = { version = "=4.6.7", features = ["derive"] }
everscale-crypto = "=0.3.0"
everscale-types = { version = "=0.1.2", features = ["abi", "base64", "blake3", "serde", "tycho"] }
hex = "=0.4.3"
humantime = "=2.4.0"
rand = "=0.8.8"
rayon = "=1.12.0"
scc = "=2.4.0"
serde = { version = "=1.0.229", features = ["derive"] }
serde_json = "=1.0.154"
streebog = "=0.10.2"
thiserror = "=1.0.69"
tl-proto = "=0.5.4"
tokio = { version = "=1.54.1", features = ["rt", "rt-multi-thread", "time", "sync", "macros"] }
