[package]
name = "gqy_web"
version = "0.1.0"
edition = "2021"
publish = false

[dependencies]
serde_json = "1"
sha2 = "0.10"
urlencoding = "2"
image = { version = "0.25", default-features = false }
flate2 = "1"
base64 = "0.22"
hex = "0.4"
rand = "0.9"
serde = { version = "1", features = ["derive"] }
axum = "0.8"
tokio = { version = "1", features = ["rt-multi-thread", "macros", "fs", "net", "sync", "time"] }
anyhow = "1"
tracing = "0.1"
chrono = "0.4"
directories = "*"
futures-util = "0.3"
libc = "0.2"
