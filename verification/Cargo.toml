[package]
name = "pump_kmonitor"
version = "0.1.0"
edition = "2021"
publish = false

[dependencies]
anyhow = "*"
axum = "*"
base64 = "*"
bs58 = "*"
clap = { version = "*", features = ["derive"] }
dotenvy = "*"
futures-util = "*"
rand = "*"
redis = { version = "*", features = ["tokio-comp", "connection-manager"] }
serde = { version = "*", features = ["derive"] }
serde_json = "*"
tokio = { version = "*", features = ["full"] }
tokio-tungstenite = "*"
tower-http = { version = "*", features = ["cors", "fs"] }
tracing = "*"
