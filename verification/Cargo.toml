[package]
name = "apollo_router"
version = "0.1.0"
edition = "2021"
publish = false

[dependencies]
apollo-parser = "0.4"
bytes = "1"
http = "0.2"
hyper = { version = "0.14", features = ["client", "http1", "http2", "tcp"] }
hyper-rustls = { version = "0.23", features = ["http2"] }
rustls = "0.20"
serde = { version = "1", features = ["derive"] }
serde_json = "1"
tower = { version = "0.4", features = ["buffer", "timeout", "util"] }
