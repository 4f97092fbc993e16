[package]
name = "rustparse"
version = "0.1.0"
edition = "2021"
publish = false

[dependencies]
syn = { version = "=2.0.119", features = ["full"] }
syn-serde = { version = "=0.3.2", features = ["json"] }

[dev-dependencies]
serde_json = "=1.0.151"
