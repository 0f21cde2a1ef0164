[package]
name = "tinymcp"
version = "0.1.0"
edition = "2021"
publish = false

[dependencies]
base64 = "0.22"
parking_lot = "*"
reqwest = { version = "0.12", default-features = false, features = ["json"] }
rusqlite = { version = "*", features = ["bundled"] }
serde = { version = "1", features = ["derive"] }
serde_json = "1"
sha2 = "0.10"
thiserror = "2"
tokio = { version = "1", features = ["rt", "time", "macros", "sync"] }
tracing = "*"
uuid = { version = "1", features = ["v4"] }
