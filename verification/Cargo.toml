[package]
name = "mcscan"
version = "0.1.0"
edition = "2021"
publish = false

[dependencies]
serde_json = "1"
tokio = { version = "1", features = ["net", "io-util", "rt-multi-thread", "macros", "signal"] }
hyper = { version = "0.14", features = ["http1", "server", "tcp"] }
listenfd = "*"
url = "*"
tracing = "*"
tracing-subscriber = "*"
