[package]
name = "bitcoin-send-tx-p2p"
version = "0.1.0"
edition = "2021"
publish = false

[dependencies]
bitcoin = { version = "0.32", features = ["rand-std"] }
log = "0.4"
thiserror = "1"
tokio = { version = "1", features = ["io-util", "macros", "net", "rt", "time"] }
tokio-socks = "0.5"
