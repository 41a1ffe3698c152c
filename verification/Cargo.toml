[package]
name = "netlab"
version = "0.1.0"
edition = "2021"
publish = false

[dependencies]
clap = { version = "4", features = ["derive"] }
etherparse = "*"
pcap = "*"
pnet = "*"
rand = "0.8"
serde = { version = "1", features = ["derive"] }
serde_json = "1"
