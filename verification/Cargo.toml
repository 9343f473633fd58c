[package]
name = "def"
version = "0.1.0"
edition = "2021"
publish = false

[dependencies]
rand = "0.8"
ethers-providers = { version = "2", features = ["ws", "rustls"] }
ethers-core = "2"
tokio = { version = "1", features = ["macros", "rt-multi-thread", "sync", "time"] }
tokio-stream = "0.1"
anyhow = "1"
log = "0.4"
fern = { version = "0.6", features = ["colored"] }
chrono = "0.4"
dotenv = "0.15"
