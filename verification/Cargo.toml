[package]
name = "tessera-core"
version = "0.1.1"
edition = "2021"
publish = false

[dependencies]
k8s-openapi = { version = "*", features = ["latest"] }
kube = { version = "*", default-features = false, features = ["client", "rustls-tls", "ring"] }
serde = { version = "1", features = ["derive"] }
serde_json = "1"
thiserror = "2"
tokio = { version = "1", features = ["macros", "rt-multi-thread", "process", "sync", "time"] }
