[package]
name = "earthquake_backend"
version = "0.1.0"
edition = "2021"
publish = false

[dependencies]
axum = "0.8"
dotenvy = "0.15"
http = "1"
reqwest = { version = "0.12", default-features = false, features = ["rustls-tls"] }
serde = { version = "1", features = ["derive"] }
serde_json = "1"
sqlx = { version = "0.8", default-features = false, features = ["runtime-tokio", "postgres", "derive"] }
tokio = { version = "1", features = ["macros", "rt-multi-thread", "net", "time"] }
tower-http = { version = "0.6", features = ["cors"] }
tracing = "0.1"
tracing-subscriber = "0.3"
utoipa = "5"
