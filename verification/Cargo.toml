[package]
name = "batch_rpc"
version = "0.1.0"
edition = "2021"
publish = false

[dependencies]
spl-token-2022 = { version = "=11.1.0", features = ["no-entrypoint"] }
tokio = { version = "=1.54.1", features = ["sync"] }
anyhow = "=1.0.104"
colored = "=3.1.1"
