[package]
name = "velox-engine"
version = "0.1.0"
edition = "2021"
publish = false

[dependencies]
rand = "0.8"
core_affinity = "0.8"
tokio = { version = "1", features = ["rt-multi-thread"] }
opentelemetry = "0.27"
opentelemetry_sdk = { version = "0.27", features = ["rt-tokio"] }
opentelemetry-otlp = { version = "0.27", features = ["metrics", "grpc-tonic"] }
