[package]
name = "snowy"
version = "0.1.0"
edition = "2021"
publish = false

[dependencies]
chrono = { version = "=0.4.45", default-features = false, features = ["std", "clock", "serde"] }
cqrs-es = "=0.4.12"
async-trait = "=0.1.92"
serde = { version = "=1.0.229", features = ["derive"] }
serde_json = "=1.0.154"
thiserror = "=1.0.69"
postgres-es = { version = "0.4", default-features = false }
sqlx = { version = "0.8", default-features = false, features = ["postgres", "runtime-tokio"] }
rocket = { version = "0.5", features = ["json"] }
dotenv = "0.15"
tracing = "0.1"

[dev-dependencies]
uuid = { version = "=1.29.0", features = ["v4"] }
