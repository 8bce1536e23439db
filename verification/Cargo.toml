[package]
name = "notes_sync"
version = "0.1.0"
edition = "2021"
publish = false

[dependencies]
axum = { version = "0.7", default-features = false, features = ["json", "tokio", "http1"] }
hostname = "0.4"
local-ip-address = "0.6"
mdns-sd = { version = "=0.7.5", default-features = false }
reqwest = { version = "0.12", default-features = false, features = ["json"] }
serde = { version = "1", features = ["derive"] }
serde_json = "1"
tokio = { version = "1", features = ["rt-multi-thread", "net", "time"] }
tower = { version = "0.5", features = ["util"] }
uuid = { version = "1", features = ["v4"] }
