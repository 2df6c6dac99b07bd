[package]
name = "dayweave_api"
version = "0.1.0"
edition = "2021"
publish = false

[dependencies]
async-trait = "0.1"
base64 = "0.22"
chrono = { version = "0.4", features = ["serde"] }
chrono-tz = "*"
serde = { version = "1", features = ["derive"] }
serde_json = "1"
sha2 = "0.10"
sqlx = { version = "*", default-features = false, features = ["runtime-tokio", "postgres", "uuid", "chrono", "json"] }
thiserror = "2"
time = "0.3"
tokio = { version = "1", features = ["sync"] }
uuid = { version = "1", features = ["v4", "v5", "serde"] }
