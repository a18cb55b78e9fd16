[package]
name = "contract_exec"
version = "0.1.0"
edition = "2021"
publish = false

[dependencies]
blake2 = "*"
clap = { version = "*", features = ["derive"] }
tokio = { version = "*", features = ["rt-multi-thread"] }
tracing = "*"
tracing-subscriber = { version = "*", features = ["env-filter"] }
