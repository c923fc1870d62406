[package]
name = "cubestore"
version = "0.1.0"
edition = "2021"
publish = false

[dependencies]
arrow = { version = "*", default-features = false }
async-trait = "0.1"
bincode = "1"
datafusion = { version = "*", default-features = false }
futures = "0.3"
itertools = "*"
log = "0.4"
mockall = "*"
serde = { version = "1", features = ["derive"] }
tokio = { version = "1", features = ["rt", "rt-multi-thread"] }
