[package]
name = "vexora"
version = "0.1.0"
edition = "2021"
publish = false

[dependencies]
serde = { version = "=1.0.229", features = ["derive", "rc"] }
rustc-hash = "=2.1.3"
indexmap = { version = "=2.14.2", features = ["serde"] }
image = { version = "=0.25.10", default-features = false, features = ["png"] }
directories = "=6.0.0"
enumset = { version = "=1.1.15", features = ["serde"] }
strum = { version = "=0.28.0", features = ["derive"] }
tokio = { version = "=1.54.1", features = ["sync"] }
