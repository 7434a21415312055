[package]
name = "delay_handler"
version = "0.1.0"
edition = "2021"
publish = false

[dependencies]
tokio-util = { version = "0.7", features = ["time"] }
tokio-stream = "0.1"

[dev-dependencies]
tokio = { version = "1", features = ["rt", "time", "test-util"] }
