[package]
name = "uniswapx_sdk"
version = "0.1.0"
edition = "2021"
publish = false

[dependencies]
alloy-primitives = { version = "0.3", default-features = false, features = ["std"] }
alloy-sol-types = { version = "0.3", default-features = false, features = ["std"] }
async-stream = "0.3"
async-trait = "0.1"
ethers = { version = "2", default-features = false }
futures = { version = "0.3", default-features = false, features = ["std"] }
reqwest = { version = "0.11", default-features = false, features = ["json"] }
serde = { version = "1", features = ["derive"] }
tokio = { version = "1", default-features = false, features = ["macros", "rt", "signal", "sync", "time"] }
tracing = { version = "0.1", default-features = false, features = ["std"] }
