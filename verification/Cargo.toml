[package]
name = "privatepay"
version = "0.1.0"
edition = "2021"
publish = false

[dependencies]
alloy = { version = "0.3", default-features = false, features = ["std", "providers", "provider-http", "reqwest", "rpc-types"] }
axum = "0.7"
dotenv = "0.15"
hex = "0.4"
rand = "0.8"
reqwest = { version = "0.12", default-features = false, features = ["json"] }
rusqlite = { version = "0.32", features = ["bundled"] }
serde = { version = "1", features = ["derive"] }
serde_json = "1"
tokio = { version = "1", features = ["full"] }
tower-http = { version = "0.5", features = ["cors"] }
