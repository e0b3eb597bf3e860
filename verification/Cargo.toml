[package]
name = "getver"
version = "0.1.0"
edition = "2021"
publish = false

[dependencies]
colored = "1.9"
runtime = "0.3.0-alpha.1"
serde = { version = "1", features = ["derive"] }
serde_json = "1"
surf = "1.0"
thiserror = "1"
version = "3"
