[package]
name = "tyra"
version = "0.1.0"
edition = "2021"
publish = false

[dependencies]
dashmap = "5"
hashring = "0.3"
regex = "1"
crossbeam-channel = "0.5"
crossbeam-utils = "0.8"
threadpool = "1"
num_cpus = "1"
ctrlc = "3"
mio = { version = "0.8", features = ["net", "os-poll"] }
io-arc = "1"
log = "0.4"
serde = { version = "1", features = ["derive"] }
bincode = "1"
thiserror = "1"
trust-dns-resolver = "0.23"
