[package]
name = "tunneler"
version = "0.1.0"
edition = "2021"
publish = false

[dependencies]
tokio = { version = "1", features = ["full"] }
rsa = "0.3"
rand = "0.7"
base64 = "0.13"
log = "0.4"
env_logger = "0.9"
structopt = "0.3"
dirs = "4"
num_cpus = "1"
mobc = "0.7"
async-trait = "0.1"
tunneler-core = "*"
