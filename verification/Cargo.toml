[package]
name = "cherry_pit"
version = "0.1.0"
edition = "2021"
publish = false
rust-version = "1.95"

[dependencies]
percent-encoding = "=2.3.2"
sha2 = "=0.10.9"
zstd = "=0.13.4"
tokio = { version = "=1.54.1", features = ["sync", "time", "rt", "rt-multi-thread", "macros", "net"] }
tokio-util = "=0.7.20"
uuid = { version = "=1.29.0", features = ["v7"] }
axum = { version = "=0.8.9", features = ["ws"] }
tower-http = { version = "=0.6.11", features = ["trace", "limit"] }
tracing = "=0.1.44"
arc-swap = "=1.9.3"
futures-util = "=0.3.34"
serde = { version = "=1.0.229", features = ["derive"] }
serde_json = "=1.0.154"
thiserror = "=2.0.21"
syn = { version = "=2.0.119", features = ["full"] }
proc-macro2 = { version = "=1.0.107", features = ["span-locations"] }
scc = "*"
