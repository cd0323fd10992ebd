[package]
name = "rustchain"
version = "0.1.0"
edition = "2021"
publish = false

[dependencies]
regex = "1"
serde = { version = "1", features = ["derive"] }
serde_json = "1"
uuid = { version = "1", features = ["v4"] }
async-trait = "0.1"
tokio = { version = "1", features = ["macros", "rt", "time", "process"] }
reqwest = { version = "0.12", default-features = false, features = ["json"] }

[dev-dependencies]
