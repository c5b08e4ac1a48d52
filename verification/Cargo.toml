[package]
name = "trip_archive_ui"
version = "0.1.0"
edition = "2021"
publish = false

[dependencies]
reqwest = { version = "=0.12.28", default-features = false, features = ["json", "multipart"] }
serde = { version = "=1.0.229", features = ["derive"] }
serde_json = "=1.0.154"
time = { version = "=0.3.55", features = ["parsing", "formatting"] }
tokio = { version = "=1.54.1", features = ["rt"] }
