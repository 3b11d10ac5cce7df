[package]
name = "dlcore"
version = "0.1.0"
edition = "2021"
publish = false

[dependencies]
reqwest = { version = "*", default-features = false, features = ["stream"] }
tokio = { version = "*", features = ["rt-multi-thread", "macros", "time", "signal"] }
futures-util = "*"
dirs = "*"
serde = { version = "*", features = ["derive"] }
serde_json = "*"
tiny_http = "*"
