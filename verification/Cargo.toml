[package]
name = "edge_gate"
version = "0.1.0"
edition = "2021"
publish = false

[dependencies]
sha2 = "*"
tokio = { version = "*", features = ["rt", "time", "macros", "sync"] }
tonic = "*"
tonic-async-interceptor = "*"
