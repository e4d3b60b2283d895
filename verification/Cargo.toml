[package]
name = "omp_harness"
version = "0.1.0"
edition = "2021"
publish = false

[dependencies]
base64 = "0.22"
codex-app-server-protocol = "*"
serde = { version = "1", features = ["derive"] }
serde_json = "1"
sha2 = "0.10"
uuid = { version = "1", features = ["v4"] }
