[package]
name = "near-network-core"
version = "0.1.0"
edition = "2021"
publish = false

[dependencies]
near-primitives = "=0.16.1"
near-primitives-core = "=0.16.1"
near-account-id = "=0.16.1"
near-crypto = "=0.16.1"
time = "=0.3.55"
protobuf = "=3.7.2"
thiserror = "=1.0.69"
tokio = { version = "=1.19.2", features = ["rt", "rt-multi-thread", "sync", "time", "macros"] }
tokio-stream = "=0.1.9"
hyper = "=0.14.20"
futures = "=0.3.34"
