[package]
name = "curvine_master"
version = "0.1.0"
edition = "2021"
publish = false

[dependencies]
dashmap = "6"
log = "0.4"
parking_lot = "0.12"
tokio = { version = "1", features = ["rt", "sync"] }
