[package]
name = "mcp_stdio"
version = "0.1.0"
edition = "2021"
publish = false

[dependencies]
log = "=0.4.34"
tokio = { version = "=1.53.2", features = ["process", "sync", "io-util", "time", "rt-multi-thread"] }
uuid = { version = "=1.27.0", features = ["v4"] }

[dev-dependencies]
async-process = "2"
