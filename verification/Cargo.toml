[package]
name = "discovery"
version = "0.1.0"
edition = "2021"
publish = false

[dependencies]
async-std = { version = "=1.13.2", features = ["unstable"] }
futures = "=0.3.34"
libp2p = { version = "=0.40.0", default-features = false, features = ["kad", "mdns"] }
thiserror = "=1.0.69"
tokio = { version = "=1.54.1", features = ["rt", "rt-multi-thread"] }
tracing = "=0.1.44"
