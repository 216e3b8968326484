[package]
name = "riot_tracker"
version = "0.1.0"
edition = "2021"
publish = false

[dependencies]
chrono = "*"
riven = "*"
serde = { version = "*", features = ["derive"] }
serde_json = "*"
sqlx = { version = "*", default-features = false, features = ["runtime-tokio", "sqlite"] }
takecell = "=0.1.1"
teloxide = { version = "*", features = ["throttle"] }
time = { version = "*", features = ["formatting", "parsing"] }
tokio = { version = "*", features = ["full"] }
tracing = "*"
tracing-subscriber = { version = "*", features = ["env-filter"] }
