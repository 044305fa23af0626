[package]
name = "opentelemetry_instana"
version = "0.1.0"
edition = "2021"
publish = false

[dependencies]
url = "2"
opentelemetry = "0.29"
opentelemetry_sdk = "0.29"
opentelemetry-http = { version = "0.29", features = ["reqwest"] }
http = "1"
bytes = "1"
reqwest = { version = "0.12", default-features = false, features = ["blocking"] }
serde_json = "1"
