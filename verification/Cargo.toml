[package]
name = "sandbox_engine"
version = "0.1.0"
edition = "2021"
publish = false

[dependencies]
sha256 = "*"
uuid = { version = "*", features = ["v4"] }
governor = "*"
actix-web = "*"
actix-cors = "*"
bollard = "*"
bb8-redis = "*"
tokio = { version = "*", features = ["full"] }
futures-util = "*"
serde = { version = "*", features = ["derive"] }
serde_json = "*"
dotenv = "*"
tracing = "*"
tracing-subscriber = "*"
