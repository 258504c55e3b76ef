[package]
name = "authcore"
version = "0.1.0"
edition = "2021"
publish = false

[dependencies]
hmac = "0.12"
sha2 = "0.10"
serde = { version = "1", features = ["derive"] }
uuid = { version = "1", features = ["serde", "v4"] }
dotenv = "0.15"
envy = "0.4"
tracing = "0.1"
axum = "0.7"
tokio = { version = "1", features = ["macros", "rt-multi-thread", "net"] }
validator = { version = "0.16", features = ["derive"] }
utoipa = "4"
