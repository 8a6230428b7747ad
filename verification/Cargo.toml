[package]
name = "notify_push"
version = "0.1.0"
edition = "2021"
publish = false

[dependencies]
ahash = "=0.8.12"
color-eyre = { version = "=0.6.5", default-features = false }
dashmap = "=6.2.1"
flexi_logger = { version = "=0.31.10", default-features = false }
futures = "=0.3.34"
log = "=0.4.34"
rand = "=0.8.8"
redis = { version = "=1.8.0", default-features = false, features = ["aio", "tokio-comp"] }
sqlx = { version = "=0.8.6", default-features = false, features = ["any", "runtime-tokio"] }
tokio = { version = "=1.54.1", features = ["sync", "time", "macros", "rt-multi-thread"] }
warp = { version = "=0.4.3", default-features = false, features = ["server", "websocket"] }
warp-real-ip = "=0.3.0"
