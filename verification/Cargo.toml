[package]
name = "axum-authentik-auth"
version = "0.1.0"
edition = "2021"
publish = false

[dependencies]
axum = "=0.8.9"
tower = "=0.5.3"
futures-util = "=0.3.34"
serde = { version = "=1.0.229", features = ["derive"] }
thiserror = "=2.0.21"
apiresponse = { version = "=0.2.2", features = ["axum"] }

[dev-dependencies]
serde_json = "=1.0.154"
