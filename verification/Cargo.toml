[package]
name = "match_lighthouse"
version = "0.1.0"
edition = "2021"
publish = false

[dependencies]
automerge = "=0.12.0"
axum = "=0.8.9"
base64 = "=0.22.1"
hmac = "=0.12.1"
iroh = { version = "=1.4.1", default-features = false }
jev-sdk = "=0.1.0"
rand = "=0.10.3"
serde = { version = "=1.0.229", features = ["derive"] }
serde_json = { version = "=1.0.154", features = ["preserve_order"] }
sha2 = "=0.10.9"
time = { version = "=0.3.55", features = ["formatting", "macros", "parsing"] }
tokio = { version = "=1.54.1", features = ["full"] }
tower-http = { version = "=0.6.11", features = ["cors"] }
