[package]
name = "copilot_switch"
version = "0.1.0"
edition = "2021"
publish = false

[dependencies]
serde_json = "=1.0.151"
dirs-next = "=2.0.0"
chrono = "=0.4.45"
uuid = { version = "=1.27.0", features = ["v4"] }
serde = { version = "=1.0.229", features = ["derive"] }
reqwest = { version = "=0.13.5", default-features = false, features = ["json", "form"] }
tokio = { version = "=1.53.2", features = ["rt", "sync", "time", "macros"] }
sqlx = { version = "=0.9.0", default-features = false, features = ["runtime-tokio", "sqlite", "derive"] }
