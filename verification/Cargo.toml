[package]
name = "dbflux"
version = "0.1.0"
edition = "2021"
publish = false

[dependencies]
serde = { version = "1", features = ["derive"] }
serde_json = "1"
uuid = { version = "1", features = ["v4"] }
sha2 = "0.10"
hex = "0.4"
chrono = "0.4"
dirs = "*"
rusqlite = { version = "*", features = ["bundled"] }
thiserror = "*"
log = "0.4"
anyhow = "1"
