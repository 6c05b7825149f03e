[package]
name = "gpt_reg"
version = "0.1.0"
edition = "2021"
publish = false

[dependencies]
rand = "=0.10.3"
reqwest = { version = "=0.12.28", features = ["json"] }
serde = { version = "=1.0.229", features = ["derive"] }
serde_json = "=1.0.154"
tokio = { version = "=1.54.1", features = ["macros", "rt-multi-thread", "time"] }
regex = "=1.13.1"
headless_chrome = "=1.0.22"
spider_fingerprint = "=2.39.0"
