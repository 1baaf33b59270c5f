[package]
name = "light_trail"
version = "0.1.0"
edition = "2021"
publish = false

[dependencies]
rand = "0.9"
uuid = { version = "1", features = ["v4"] }
tokio = { version = "1", features = ["macros", "rt-multi-thread", "time"] }
async-std = "1"
async-tungstenite = { version = "*", features = ["async-std-runtime"] }
futures = "0.3"
serde = { version = "1", features = ["derive"] }
serde_json = "1"
