[package]
name = "schoology_export"
version = "0.1.0"
edition = "2021"
publish = false

[dependencies]
anyhow = "*"
async-trait = "*"
env_logger = "*"
http = "*"
humantime = "*"
log = "*"
reqwest = { version = "*", default-features = false, features = ["json"] }
reqwest-middleware = "*"
reqwest-retry = "*"
serde_json = "*"
tokio = { version = "*", features = ["macros", "rt-multi-thread", "fs", "io-util", "io-std"] }
uuid = { version = "*", features = ["v4"] }
