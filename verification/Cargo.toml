[package]
name = "rns_proxy"
version = "0.1.0"
edition = "2021"
publish = false

[dependencies]
clap = { version = "4", features = ["derive"] }
env_logger = "*"
fast-socks5 = "*"
hex = "0.4"
log = "0.4"
rns-crypto = "*"
rns-net = "*"
tokio = { version = "1", features = ["full"] }
