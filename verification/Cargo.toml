[package]
name = "feth"
version = "0.1.0"
edition = "2021"
publish = false

[dependencies]
anyhow = "1"
env_logger = "0.11"
log = "0.4"
num_cpus = "1"
parking_lot = "0.12"
pprof = { version = "0.15", features = ["flamegraph"] }
rayon = "1"
reqwest = { version = "0.11", default-features = false, features = ["blocking", "json"] }
secp256k1 = { version = "0.27", features = ["rand-std"] }
serde = { version = "1", features = ["derive"] }
serde_json = "1"
sha3 = "0.10"
tendermint = "0.26"
tendermint-rpc = { version = "0.26", features = ["http-client"] }
tokio = { version = "1", features = ["rt", "rt-multi-thread", "fs", "io-util"] }
url = "2"
web3 = { version = "0.19", default-features = false, features = ["http", "signing"] }
