[package]
name = "photo-browser"
version = "0.1.0"
edition = "2021"
publish = false

[dependencies]
axum = "=0.7.9"
image = { version = "=0.25.10", default-features = false, features = ["jpeg", "png"] }
mime_guess = "=2.0.5"
serde = { version = "=1.0.229", features = ["derive"] }
serde_json = "=1.0.154"
tokio = { version = "=1.54.1", features = ["fs", "macros", "net", "rt-multi-thread"] }
