[package]
name = "micro_core"
version = "0.1.0"
edition = "2021"
publish = false

[dependencies]
hex = "0.4"
itertools = "0.10"
serde = { version = "1", features = ["derive"] }
tokio = { version = "1", features = ["sync", "time", "rt", "macros"] }
