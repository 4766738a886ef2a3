[package]
name = "tyl_pubsub_port"
version = "0.1.0"
edition = "2021"
publish = false

[dependencies]
async-trait = "0.1"
chrono = { version = "0.4", features = ["serde"] }
fastrand = "2"
jsonschema = { version = "0.60", default-features = false }
schemars = "0.8"
serde = { version = "1", features = ["derive"] }
serde_json = "1"
thiserror = "1"
tokio = { version = "1", features = ["macros", "rt", "rt-multi-thread", "time", "sync"] }
uuid = { version = "1", features = ["v4"] }
