[package]
name = "rustpilot"
version = "0.1.0"
edition = "2021"
publish = false

[dependencies]
colored = "2"
dotenv = "0.15"
reqwest = { version = "0.12", features = ["json"] }
serde = { version = "1", features = ["derive"] }
serde_json = "1"
similar = "2"
thiserror = "1"
tokio = { version = "1", features = ["full"] }
