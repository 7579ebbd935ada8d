[package]
name = "cinemotion"
version = "0.1.0"
edition = "2021"
publish = false

[dependencies]
base64 = "0.21"
serde = { version = "1", features = ["derive"] }
tokio = { version = "1", features = ["rt-multi-thread", "macros", "sync", "time", "signal", "net"] }
anyhow = "1"
clap = { version = "4", features = ["derive"] }
tracing = "0.1"
tracing-subscriber = { version = "0.3", features = ["env-filter", "fmt"] }
futures = "0.3"
async-trait = "0.1"
thiserror = "1"
