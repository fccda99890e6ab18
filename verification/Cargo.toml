[package]
name = "ops_desk"
version = "0.1.0"
edition = "2021"
publish = false

[dependencies]
anyhow = "1"
axum = "0.8"
chrono = { version = "0.4", default-features = false, features = ["clock", "serde", "std"] }
dotenvy = "0.15"
reqwest = { version = "0.12", default-features = false }
serde = { version = "1", features = ["derive"] }
serde_json = "1"
sqlx = { version = "0.8", default-features = false, features = ["postgres", "chrono", "runtime-tokio", "macros"] }
tokio = { version = "1", features = ["macros", "rt-multi-thread", "process", "time", "net"] }
tower-http = { version = "0.6", features = ["fs"] }
