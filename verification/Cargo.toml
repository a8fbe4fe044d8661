[package]
name = "gennia_server"
version = "0.1.0"
edition = "2021"
publish = false

[dependencies]
axum = "*"
querystring = "*"
rand = "*"
serde = { version = "*", features = ["derive"] }
serde_json = "*"
socketioxide = "*"
tokio = { version = "*", features = ["full"] }
tracing = "*"
tracing-subscriber = "*"
