[package]
name = "near-workspaces-tools"
version = "1.0.0"
edition = "2021"
publish = false

[dependencies]
async-trait = "=0.1.92"
near-workspaces = { version = "=0.24.0", default-features = false, features = ["rustls"] }
serde = { version = "=1.0.229", features = ["derive"] }
serde_json = "=1.0.154"
