[package]
name = "pulsar_node"
version = "0.1.0"
edition = "2021"
publish = false

[dependencies]
base64 = "=0.22.1"
sha2 = "=0.10.9"
serde = { version = "=1.0.229", features = ["derive"] }
serde_json = "=1.0.154"
tokio = { version = "=1.54.1", features = ["full"] }
tokio-tungstenite = { version = "=0.23.1", features = ["native-tls"] }
futures-util = { version = "=0.3.34", features = ["sink"] }
once_cell = "=1.21.4"
parking_lot = "=0.12.5"
reqwest = { version = "=0.12.28", features = ["json"] }
rusqlite = { version = "=0.31.0", features = ["bundled"] }
