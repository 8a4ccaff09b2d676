[package]
name = "ceph"
version = "0.1.0"
edition = "2021"
publish = false

[dependencies]
byteorder = "=1.5.0"
libc = "=0.2.191"
serde = { version = "=1.0.229", features = ["derive"] }
serde_json = "=1.0.154"
uuid = { version = "=0.8.2", features = ["serde"] }
futures = { version = "=0.3.34", features = ["thread-pool"] }
tracing = "=0.1.44"
