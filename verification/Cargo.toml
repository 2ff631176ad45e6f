[package]
name = "nest-rs-http"
version = "0.1.0"
edition = "2021"
publish = false

[dependencies]
poem = { version = "=3.1.12", features = ["sse", "multipart", "rustls", "compression"] }
rustls = "=0.23.46"
serde = { version = "=1.0.229", features = ["derive"] }
serde_json = "=1.0.154"
anyhow = "=1.0.104"
tokio = { version = "=1.54.1", features = ["rt", "macros", "time", "sync"] }
tokio-util = "=0.7.20"
bytes = "=1.12.1"
futures-util = "=0.3.34"
tracing = "=0.1.44"
schemars = "=1.2.3"
async-trait = "=0.1.92"

[dev-dependencies]
rcgen = "0.13"
