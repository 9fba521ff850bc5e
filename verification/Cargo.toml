[package]
name = "mongoscope"
version = "0.1.0"
edition = "2021"
publish = false

[dependencies]
anyhow = "1"
axum = "*"
bson = "2"
clap = { version = "4", features = ["derive"] }
futures = "0.3"
indexmap = { version = "2", features = ["serde"] }
rand = { version = "0.8", features = ["small_rng"] }
rmcp = { version = "*", features = ["server", "macros", "transport-io", "transport-streamable-http-server"] }
serde = { version = "1", features = ["derive"] }
serde_json = "1"
tokio = { version = "1", features = ["full"] }
tower-layer = "0.3"
tower-service = "0.3"
