[package]
name = "orangutan"
version = "0.1.0"
edition = "2021"
publish = false

[dependencies]
biscuit-auth = "4"
hex = "0.4"
serde_json = "1"
urlencoding = "2"
iso8601-duration = "0.2"
axum = "0.8"
axum-extra = { version = "0.10", features = ["cookie"] }
tokio = { version = "1", features = ["rt-multi-thread", "macros", "net"] }
tower = "0.5"
tower-http = { version = "0.6", features = ["fs"] }
serde = { version = "1", features = ["derive"] }
serde_urlencoded = "0.7"
time = "0.3"
chrono = "0.4"
thiserror = "2"
