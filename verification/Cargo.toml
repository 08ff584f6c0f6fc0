[package]
name = "request_id"
version = "0.1.0"
edition = "2021"
publish = false

[dependencies]
hyper = "1"
tower-http = { version = "0.6", features = ["request-id"] }
ulid = "1"
uuid = { version = "1", features = ["v4"] }
