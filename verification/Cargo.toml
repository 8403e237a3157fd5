[package]
name = "gelf_mover"
version = "0.1.0"
edition = "2021"
publish = false

[dependencies]
actix = { version = "=0.9.0", default-features = false }
async-trait = "=0.1.92"
flate2 = "=1.1.10"
futures = "=0.3.34"
reqwest = { version = "=0.10.10", default-features = false, features = ["json"] }
serde = { version = "=1.0.229", features = ["derive"] }
serde_json = "=1.0.154"
tokio = { version = "=0.2.25", features = ["full"] }
uuid = { version = "=0.8.2", features = ["v4", "serde"] }
