[package]
name = "tower_request_id"
version = "0.1.0"
edition = "2021"
publish = false

[dependencies]
ulid = "*"
http = "*"
tower-layer = "*"
tower-service = "*"
tower-http = { version = "*", features = ["trace"] }
tracing = "*"
