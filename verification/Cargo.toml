[package]
name = "sse_relay"
version = "0.1.0"
edition = "2021"
publish = false

[dependencies]
uuid = { version = "*", features = ["v4"] }
reqwest = { version = "*", default-features = false, features = ["stream"] }
futures-util = "*"
serde = { version = "*", features = ["derive"] }
tokio = { version = "*", features = ["rt"] }
