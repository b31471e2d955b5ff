[package]
name = "overseer"
version = "0.1.0"
edition = "2021"
publish = false

[dependencies]
futures = "=0.3.34"
tracing = { version = "=0.1.44", default-features = false, features = ["std"] }
proc-macro2 = "=1.0.107"
quote = "=1.0.47"
syn = { version = "=1.0.109", features = ["full"] }
sp-api = "44.0.0"
sp-runtime = "49.0.0"
