[package]
name = "world_server"
version = "0.1.0"
edition = "2021"
publish = false

[dependencies]
rand = "=0.10.3"
serde = { version = "=1.0.229", features = ["derive"] }
serde_json = "=1.0.151"
tokio = { version = "=1.53.2", features = ["full"] }
tokio-stream = "=0.1.19"
futures = "=0.3.34"
warp = { version = "=0.4.3", features = ["server", "websocket"] }
uuid = { version = "=1.27.0", features = ["v4"] }
