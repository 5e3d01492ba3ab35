[package]
name = "ord"
version = "0.1.0"
edition = "2021"
publish = false

[dependencies]
symphonia = "=0.5.5"
ordinals = "=0.0.17"
http = "=1.5.0"
axum = { version = "=0.8.9", default-features = false }
ciborium = "=0.2.2"
serde = { version = "1", features = ["derive"] }
url = "2"
