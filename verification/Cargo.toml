[package]
name = "home_nas"
version = "0.1.0"
edition = "2021"
publish = false

[dependencies]
regex-lite = "0.1"
bcrypt = "0.15"
uuid = { version = "1", features = ["v4"] }
chrono = "0.4"
mime_guess = "2"
jsonwebtoken = "9"
serde = { version = "1", features = ["derive"] }
serde_json = "1"
serde_yaml = "0.9"
anyhow = "1"
axum = "0.8"
tokio = { version = "1", features = ["full"] }
sqlx = { version = "0.8", default-features = false, features = ["runtime-tokio", "postgres", "chrono", "derive"] }
tower-http = { version = "0.6", features = ["cors"] }
tracing = "0.1"
tracing-subscriber = { version = "0.3", features = ["env-filter"] }
lofty = "0.17"
image = { version = "0.25", default-features = false, features = ["jpeg", "png"] }
