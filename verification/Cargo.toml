[package]
name = "storage_workload"
version = "0.1.0"
edition = "2021"
publish = false

[dependencies]
anyhow = "=1.0.104"
clap = { version = "=3.2.25", features = ["derive"] }
futures = "=0.3.34"
rand = "=0.8.8"
rocksdb = { version = "0.22", default-features = false, features = ["multi-threaded-cf"] }
sled = "=0.34.7"
tokio = { version = "=1.54.1", features = ["macros", "rt-multi-thread", "time"] }
tokio-stream = { version = "=0.1.19", features = ["time"] }
