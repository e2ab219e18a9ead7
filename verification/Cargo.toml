[package]
name = "pacbot_rs"
version = "0.1.0"
edition = "2021"
publish = false

[dependencies]
array-init = "2"
rand = { version = "0.8", features = ["small_rng"] }
serde = { version = "1", features = ["derive"] }
