[package]
name = "ws_relay"
version = "0.1.0"
edition = "2021"
publish = false

[dependencies]
hex = "=0.4.3"
rand = "=0.10.3"
uuid = { version = "=1.27.0", features = ["v4"] }
tokio = { version = "=1.53.2", features = ["sync", "macros", "rt-multi-thread"] }
tokio-stream = "=0.1.19"
futures-util = "=0.3.34"
warp = { version = "=0.4.3", features = ["server", "websocket"] }
