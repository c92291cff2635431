[package]
name = "halpid"
version = "0.1.0"
edition = "2021"
publish = false

[dependencies]
anyhow = "1"
axum = { version = "0.8", features = ["multipart"] }
chrono = "0.4"
clap = { version = "4", features = ["derive"] }
crc32fast = "1"
http-body-util = "0.1"
hyper = "1"
hyper-util = "0.1"
hyperlocal = "0.9"
i2cdev = "0.6"
libc = "0.2"
serde = { version = "1", features = ["derive"] }
serde_json = "1"
serde_yaml = "0.9"
thiserror = "2"
tokio = { version = "1", features = ["macros", "net", "rt", "rt-multi-thread", "signal", "sync", "time"] }
tower-http = { version = "0.6", features = ["trace"] }
tracing = "0.1"
tracing-subscriber = { version = "0.3", features = ["env-filter"] }
