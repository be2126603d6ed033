[package]
name = "burn_to_vote"
version = "0.1.0"
edition = "2021"
publish = false

[dependencies]
poseidon-rs = "0.0.10"
ff_ce = "0.11"
num-bigint = "0.4"
num-traits = "0.2"
primitive-types = "0.13"
hex = "0.4"
serde = { version = "1", features = ["derive"] }
serde_json = "1"
log = "0.4"
env_logger = "0.11"
anyhow = "1"
eyre = "0.6"
rand = "0.8"
tokio = { version = "1", features = ["full"] }
structopt = "0.3"
bincode = "2"
sled = "0.34"
ethabi = "18"
ethers = { version = "2", default-features = false }
