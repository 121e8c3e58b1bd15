[package]
name = "game_of_life"
version = "0.1.0"
edition = "2021"
publish = false

[dependencies]
gif = "*"
axum = "*"
tokio = { version = "*", features = ["rt-multi-thread", "macros", "net", "fs"] }
tower-http = { version = "*", features = ["fs"] }
serde = { version = "*", features = ["derive"] }
serde_json = "*"
log = "*"
log4rs = "*"
uuid = { version = "*", features = ["v4"] }
