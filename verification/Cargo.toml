[package]
name = "sd_core"
version = "0.1.0"
edition = "2021"
publish = false

[dependencies]
uuid = { version = "1", features = ["v4", "serde"] }
serde_json = "1"
serde = { version = "1", features = ["derive"] }
tokio = { version = "1", features = ["sync", "time", "rt", "fs"] }
tracing = "0.1"
thiserror = "1"
hostname = "0.3"
directories = "5"
