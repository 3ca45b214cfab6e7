[package]
name = "notify_relay"
version = "0.1.0"
edition = "2021"
publish = false

[dependencies]
anyhow = "*"
async-trait = "*"
chrono = "*"
octocrab = "*"
reqwest = { version = "*", default-features = false, features = ["json", "rustls-tls"] }
rustls = "*"
serde_json = "*"
sqlx = { version = "*", default-features = false, features = ["runtime-tokio", "sqlite", "postgres"] }
tokio = { version = "*", features = ["macros", "rt-multi-thread", "signal", "time"] }
