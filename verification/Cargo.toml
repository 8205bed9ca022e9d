[package]
name = "rust-server"
version = "0.1.0"
edition = "2021"
publish = false

[dependencies]
automerge = "*"
axum = { version = "0.8", features = ["ws", "macros"] }
bytes = "1"
chrono = { version = "0.4", features = ["serde"] }
dashmap = "*"
diesel = { version = "2", features = ["postgres_backend", "uuid", "chrono", "serde_json"] }
diesel-async = { version = "*", features = ["postgres", "deadpool"] }
diesel-derive-enum = { version = "*", features = ["postgres"] }
dotenvy = "0.15"
futures = "0.3"
hyper = "1"
jsonwebtoken = "9"
lettre = { version = "0.11", default-features = false, features = ["smtp-transport", "builder", "hostname", "rustls-tls"] }
oauth2 = "5"
pwhash = "1"
rand = "0.8"
reqwest = { version = "0.12", default-features = false, features = ["json", "rustls-tls"] }
rustls = "0.23"
rustls-platform-verifier = "*"
serde = { version = "1", features = ["derive"] }
serde_json = "1"
thiserror = "*"
tokio = { version = "1", features = ["full"] }
tokio-postgres = "0.7"
tokio-postgres-rustls = "*"
tower-http = { version = "*", features = ["trace", "cors", "fs"] }
tracing = "0.1"
tracing-subscriber = { version = "0.3", features = ["env-filter"] }
uuid = { version = "1", features = ["v4", "serde"] }
validator = { version = "*", features = ["derive"] }
