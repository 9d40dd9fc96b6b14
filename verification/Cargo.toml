[package]
name = "sfu_server"
version = "0.1.0"
edition = "2021"
publish = false

[dependencies]
rand = "0.8"
serde = { version = "1", features = ["derive"] }
serde_json = "1"
tokio = { version = "1", features = ["full"] }
warp = "0.3"
webrtc = "0.11"
futures = "0.3"
tracing = "0.1"
tracing-subscriber = { version = "0.3", features = ["env-filter"] }
dotenv = "0.15"
reqwest = { version = "0.11", default-features = false, features = ["json", "multipart", "rustls-tls"] }
clap = { version = "4", features = ["derive"] }
colored = "2"
tokio-tungstenite = "0.21"

[dev-dependencies]
primitive-types = "0.12"
