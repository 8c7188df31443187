[package]
name = "agentsight"
version = "0.1.0"
edition = "2021"
publish = false

[dependencies]
metrics = "0.24"

[dev-dependencies]
metrics-exporter-prometheus = { version = "0.17", default-features = false }
