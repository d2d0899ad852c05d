[package]
name = "zfs_object_agent"
version = "0.1.0"
edition = "2021"
publish = false

[dependencies]
anyhow = "1"
async-stream = "0.3"
bytes = "1"
futures = "0.3"
lazy_static = "1"
log = "0.4"
lru = "0.6"
rand = "0.8"
rusoto_core = { version = "0.47", default-features = false, features = ["rustls"] }
rusoto_s3 = { version = "0.47", default-features = false, features = ["rustls"] }
serde = { version = "1", features = ["derive"] }
tokio = { version = "1", features = ["full"] }
