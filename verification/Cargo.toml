[package]
name = "blimp_ground_ws_interface"
version = "0.1.0"
edition = "2021"
publish = false

[dependencies]
serde = { version = "*", features = ["derive"] }
serde_json = "*"
postcard = { version = "*", features = ["use-std"] }
tokio = { version = "*", features = ["rt-multi-thread", "macros", "net", "sync", "time", "signal", "io-util"] }
tokio-tungstenite = "*"
tungstenite = "*"
futures-util = "*"
