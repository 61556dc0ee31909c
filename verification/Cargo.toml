[package]
name = "dynamo_serving"
version = "0.1.0"
edition = "2021"
publish = false

[dependencies]
anyhow = "1"
axum = "0.8"
bytes = "1"
futures = "0.3"
k8s-openapi = { version = "0.26", features = ["latest"] }
kube = { version = "2", default-features = false, features = ["client", "runtime"] }
pyo3 = { version = "0.25", features = ["abi3-py39"] }
pythonize = "0.25"
reqwest = { version = "0.12", default-features = false, features = ["json"] }
serde = { version = "1", features = ["derive"] }
serde-transcode = "1"
serde_json = "1"
tokio = { version = "1", features = ["macros", "rt-multi-thread", "sync", "time"] }
tokio-util = "0.7"
tonic = { version = "0.13", default-features = false, features = ["codegen"] }
tracing = "0.1"
