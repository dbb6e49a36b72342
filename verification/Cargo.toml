[package]
name = "pingsched"
version = "0.1.0"
edition = "2021"
publish = false

[dependencies]
anyhow = "=1.0.104"
futures = "=0.3.34"
netdiag = "=0.3.0"
tokio = { version = "=1.53.2", features = ["rt-multi-thread", "sync", "time"] }
