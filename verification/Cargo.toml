[package]
name = "plutus"
version = "0.1.0"
edition = "2021"
publish = false

[dependencies]
bitcoin = { version = "*", features = ["rand-std"] }
fastbloom-rs = "*"
rusqlite = { version = "*", features = ["bundled"] }
serde_urlencoded = "*"
hostname = "*"
num_cpus = "*"
reqwest = { version = "*", default-features = false }
tokio = { version = "*", features = ["rt-multi-thread"] }
