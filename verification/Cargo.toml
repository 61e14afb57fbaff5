[package]
name = "boids"
version = "0.1.0"
edition = "2021"
publish = false

[dependencies]
tokio = { version = "*", features = ["rt-multi-thread", "macros", "sync"] }
tracing = "*"
tracing-subscriber = "*"
derive_more = { version = "*", features = ["display", "from"] }
