[package]
name = "open_comm"
version = "0.1.0"
edition = "2021"
publish = false

[dependencies]
bytes = "=0.5.6"
futures = "=0.3.34"
jsonwebtoken = "=7.2.0"
mobc = "=0.5.12"
mobc-postgres = "=0.5.0"
rand = "=0.7.3"
rocket = { version = "0.5", default-features = false }
rust-crypto = "=0.2.36"
serde = { version = "=1.0.229", features = ["derive"] }
serde_json = "=1.0.154"
tempfile = "=3.27.0"
thiserror = "=1.0.69"
tokio = { version = "=0.2.25", features = ["macros", "rt-threaded", "stream"] }
tracing-subscriber = "=0.2.25"
warp = "=0.2.5"
