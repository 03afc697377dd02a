[package]
name = "cherrypick"
version = "0.1.0"
edition = "2021"
publish = false

[dependencies]
sha2 = "0.10"
lru = "0.12"
serde = { version = "1", features = ["derive"] }
serde_json = "1"
thiserror = "2"
chrono = { version = "0.4", features = ["serde"] }
git2 = { version = "0.19", default-features = false }
rusqlite = { version = "0.32", features = ["bundled"] }
tokio-rusqlite = "0.6"
tokio = { version = "1", features = ["rt-multi-thread", "sync", "macros", "time", "process", "io-util"] }
reqwest = { version = "0.12", default-features = false, features = ["json", "stream"] }
futures = "0.3"
async-trait = "0.1"
anyhow = "1"
log = "0.4"
notify = "6"
parking_lot = "0.12"
