[package]
name = "crakv"
version = "0.1.0"
edition = "2021"
publish = false

[dependencies]
async-maelstrom = "*"
async-trait = "*"
tokio = { version = "1", features = ["macros", "rt-multi-thread"] }
tracing = "*"
tracing-subscriber = { version = "*", features = ["env-filter"] }
