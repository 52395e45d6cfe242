[package]
name = "relay_panel"
version = "0.1.0"
edition = "2021"
publish = false

[dependencies]
sha2 = "0.10"
async-trait = "0.1"
axum = { version = "0.7", default-features = false, features = ["json"] }
reqwest = { version = "0.12", default-features = false, features = ["rustls-tls"] }
serde = { version = "1", features = ["derive"] }
sqlx = { version = "0.8", default-features = false, features = ["runtime-tokio", "sqlite", "postgres"] }
tokio = { version = "1", features = ["fs", "rt"] }
tracing = "0.1"
