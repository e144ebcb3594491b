[package]
name = "a3_platform"
version = "0.1.0"
edition = "2021"
publish = false

[dependencies]
serde = { version = "=1.0.229", features = ["derive"] }
serde_json = "=1.0.154"
shellexpand = "=3.1.2"
http = "=1.5.0"
thiserror = "=2.0.21"
tokio = { version = "=1.54.1", features = ["full"] }
tokio-stream = "=0.1.19"
async-nats = "=0.51.0"
async-trait = "=0.1.92"
clap = { version = "=4.6.7", features = ["derive"] }
chrono = "=0.4.45"
tracing = "=0.1.44"
futures-util = "=0.3.34"
axum = { version = "=0.8.9", features = ["ws"] }
tower-http = { version = "=0.6.11", features = ["fs"] }
rig-core = { version = "=0.40.0", features = ["rmcp"] }
rmcp = { version = "=1.7.0", features = ["client", "transport-child-process", "transport-streamable-http-client-reqwest"] }
