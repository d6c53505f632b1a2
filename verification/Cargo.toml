[package]
name = "phantom"
version = "0.1.0"
edition = "2021"
publish = false

[dependencies]
bytes = "1"
cookie = "0.18"
cookie_store = { version = "0.22", default-features = false }
http = "1"
http-body = "1"
parking_lot = "0.12"
psl = "2"
serde = { version = "1", features = ["derive"] }
sfv = "*"
tokio = { version = "1", features = ["sync", "time", "rt", "macros"] }
tracing = "0.1"
url = "2"
