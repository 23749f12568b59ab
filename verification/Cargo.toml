[package]
name = "rlm"
version = "0.1.0"
edition = "2021"
publish = false

[dependencies]
pyo3 = { version = "=0.20.3", features = ["auto-initialize"] }
reqwest = "=0.13.5"
rig-core = { version = "=0.43.0", features = ["reqwest"] }
rig-reqwest = "=0.43.0"
tokio = { version = "=1.53.2", features = ["macros", "rt-multi-thread"] }
