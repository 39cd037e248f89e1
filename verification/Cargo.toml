[package]
name = "neo4j_bridge"
version = "0.1.0"
edition = "2021"
publish = false

[dependencies]
neo4rs = "*"
tokio = { version = "*", features = ["rt-multi-thread", "sync", "time", "macros"] }
tokio-util = { version = "*", features = ["rt"] }
