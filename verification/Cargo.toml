[package]
name = "encircled"
version = "0.1.0"
edition = "2021"
publish = false

[dependencies]
sha2 = "0.10"
serde = { version = "1", features = ["derive"] }
serde_json = "1"
rusqlite = { version = "0.31", features = ["bundled"] }
reqwest = { version = "0.12", default-features = false, features = ["json", "multipart", "stream", "rustls-tls"] }
sysinfo = "0.30"
dirs = "5"
notify-debouncer-mini = "0.4"
tokio = { version = "1", features = ["rt", "rt-multi-thread", "time", "sync", "fs", "macros"] }
tokio-util = { version = "0.7", features = ["io"] }
