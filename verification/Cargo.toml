[package]
name = "mcp_router"
version = "0.1.0"
edition = "2021"
publish = false

[dependencies]
base64 = "*"
ring = "*"
rand = "*"
chrono = { version = "*", default-features = false, features = ["clock"] }
uuid = { version = "*", features = ["v4"] }
tokio = { version = "*", features = ["sync", "rt-multi-thread", "macros", "net", "io-util", "process", "time", "signal"] }
serde = { version = "*", features = ["derive"] }
serde_json = "*"
axum = "*"
reqwest = { version = "*", default-features = false, features = ["json"] }
futures = "*"
hex = "*"
toml = "*"
