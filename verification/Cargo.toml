[package]
name = "shiloh"
version = "0.1.0"
edition = "2021"
publish = false

[dependencies]
ahash = "0.8"
smallvec = "1"
serde = { version = "1", features = ["derive"] }
serde_json = "1"
thiserror = "2"
glam = "0.29"
rhai = "1"
ureq = { version = "2", default-features = false }
tracing = "0.1"
