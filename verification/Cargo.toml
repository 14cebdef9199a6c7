[package]
name = "librefang"
version = "0.1.0"
edition = "2021"
publish = false

[dependencies]
async-trait = "0.1"
chrono = { version = "0.4", default-features = false, features = ["alloc", "clock", "std"] }
chrono-tz = "0.10"
futures = "0.3"
html-escape = "0.2"
reqwest = { version = "0.12", default-features = false, features = ["json", "multipart", "rustls-tls"] }
serde_json = "1"
tokio = { version = "1", features = ["fs", "io-util", "process", "rt", "sync", "time"] }
tokio-stream = "0.1"
tracing = "0.1"
uuid = { version = "1", features = ["v4"] }
zeroize = "1"
