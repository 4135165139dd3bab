[package]
name = "aio_core"
version = "0.1.0"
edition = "2021"
publish = false

[dependencies]
xml-rs = "0.8"
base64 = "0.22"
encoding_rs = "0.8"
uuid = { version = "1", features = ["v4"] }
serde = { version = "1", features = ["derive"] }
serde_json = "1"
zip = { version = "*", default-features = false, features = ["deflate"] }
pdf-extract = "*"
dirs = "*"
dashmap = "*"
futures-util = "0.3"
tokio = { version = "1", features = ["rt", "macros", "time", "sync"] }
reqwest = { version = "0.12", default-features = false, features = ["json", "stream"] }
rusqlite = "*"
