[package]
name = "market_stream_core"
version = "0.1.0"
edition = "2021"
publish = false

[dependencies]
serde_json = "*"
chrono = "*"
urlencoding = "*"
reqwest = { version = "*", default-features = false, features = ["stream"] }
tokio = { version = "*", features = ["rt-multi-thread", "macros", "signal", "sync", "io-util", "time"] }
tokio-util = { version = "*", features = ["io"] }
futures = "*"
prost = "*"
prost-types = "*"
zmq = "*"
tracing = "*"
tracing-subscriber = "*"
