[package]
name = "redis_om"
version = "0.1.0"
edition = "2021"
publish = false

[dependencies]
heck = "0.4"
syn = { version = "1", features = ["full"] }
quote = "1"
proc-macro2 = "1"
redis = { version = "0.22", features = ["streams", "aio", "tokio-comp"] }
rusty_ulid = "*"
serde = { version = "1", features = ["derive"] }
serde_json = "1"
async-trait = "0.1"
tap = "1"
