[package]
name = "broken_links"
version = "0.1.0"
edition = "2021"
publish = false

[dependencies]
url = "*"
select = "*"
tokio = { version = "*", features = ["rt-multi-thread", "macros", "sync", "signal"] }
reqwest = { version = "*", default-features = false }
serde = { version = "*", features = ["derive"] }
serde_json = "*"
log = "*"
env_logger = "*"
anyhow = "*"
