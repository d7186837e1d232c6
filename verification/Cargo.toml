[package]
name = "identity_service"
version = "0.1.0"
edition = "2021"
publish = false

[dependencies]
identity_eddsa_verifier = "*"
identity_jose = "*"
uuid = { version = "*", features = ["v4"] }
axum = "*"
tokio = { version = "*", features = ["full"] }
reqwest = { version = "*", default-features = false, features = ["json"] }
serde = { version = "*", features = ["derive"] }
serde_json = "*"
anyhow = "*"
dotenvy = "*"
tracing = "*"
tracing-subscriber = { version = "*", features = ["env-filter"] }
tower-http = { version = "*", features = ["trace"] }

[dev-dependencies]
ed25519-dalek = "*"
