[package]
name = "taskwire"
version = "0.1.0"
edition = "2021"

[dependencies]
pnet = "*"
tokio = { version = "*", features = ["rt-multi-thread", "macros"] }
serde = { version = "*", features = ["derive"] }
serde_json = "*"
