[package]
name = "reader_lib"
version = "0.1.0"
edition = "2021"
publish = false

[dependencies]
rusqlite = { version = "0.37", features = ["bundled"] }
serde = { version = "1", features = ["derive"] }
serde_json = "1"
chrono = "0.4"
dirs = "6"
log = "0.4"
reqwest = { version = "0.12", features = ["cookies", "json"] }
tokio = { version = "1", features = ["time", "rt", "macros"] }
