[package]
name = "abci_server"
version = "0.1.0"
edition = "2021"
publish = false

[dependencies]
futures = "*"
tendermint = "*"
tendermint-proto = "*"
tokio = { version = "*", features = ["net", "rt", "rt-multi-thread", "io-util", "macros"] }
tokio-util = { version = "*", features = ["codec"] }
tower = { version = "*", features = ["util"] }
tracing = "*"
