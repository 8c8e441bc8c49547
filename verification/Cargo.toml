[package]
name = "access_token_rate_limit"
version = "0.1.0"
edition = "2021"
publish = false

[dependencies]
http = "=1.5.0"
moka = { version = "=0.12.16", features = ["future"] }
tokio = { version = "=1.54.1", features = ["sync"] }
tower = "=0.5.3"
