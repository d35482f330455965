[package]
name = "arwah"
version = "0.1.0"
edition = "2021"
publish = false

[dependencies]
pktparse = "*"
tls-parser = "*"
httparse = "*"
dns-parser = "*"
dhcp4r = "*"
serde_json = "*"
sha2 = "*"
data-encoding = "*"
rand = "*"
text_placeholder = "*"
toml = "*"
rlimit = "*"
bstr = "*"
cidr-utils = "*"
hickory-resolver = "*"
async-std = "*"
futures = "*"
clap = { version = "*", features = ["derive"] }
serde = { version = "*", features = ["derive"] }
serde_derive = "*"
dirs = "*"
log = "*"
env_logger = "*"
anyhow = "*"
num_cpus = "*"
ansi_term = "*"
