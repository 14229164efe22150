[package]
name = "notification_template"
version = "0.1.0"
edition = "2021"
publish = false

[dependencies]
lenso = "*"
lenso-auth-sdk = "*"
lenso-capability-secrets = "*"
lenso-kernel = "*"
lenso-postgres-kit = "*"
serde = { version = "1", features = ["derive"] }
serde_json = "1"
sha2 = "0.10"
sqlx = { version = "*", default-features = false, features = ["postgres", "time", "json", "runtime-tokio"] }
thiserror = "2"
time = { version = "0.3", features = ["formatting", "parsing"] }
zeroize = "1"
