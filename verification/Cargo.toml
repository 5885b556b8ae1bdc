[package]
name = "stake_indexer"
version = "0.1.0"
edition = "2021"
publish = false

[dependencies]
num-bigint = "=0.5.1"
num-traits = "=0.2.19"
serde_json = "=1.0.151"
serde = { version = "*", features = ["derive"] }
chrono = { version = "*", default-features = false, features = ["clock", "std", "serde"] }
log = "*"
env_logger = { version = "*", default-features = false }
dotenv = "*"
futures = "*"
tokio = { version = "*", features = ["macros", "rt-multi-thread", "time"] }
reqwest = { version = "*", default-features = false, features = ["json"] }
mongodb = "*"
near-jsonrpc-client = "*"
near-jsonrpc-primitives = "*"
near-primitives = "*"
