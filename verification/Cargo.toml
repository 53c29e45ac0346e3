[package]
name = "geyser_discovery"
version = "0.1.0"
edition = "2021"
publish = false

[dependencies]
anyhow = "*"
futures = "*"
rustls = { version = "*", default-features = false, features = ["ring", "std", "logging", "tls12"] }
serde = { version = "*", features = ["derive"] }
serde_norway = "*"
tokio = { version = "*", features = ["rt-multi-thread", "macros", "sync", "time"] }
tracing = "*"
tracing-subscriber = { version = "*", features = ["json", "env-filter", "chrono"] }
valuable = { version = "*", features = ["derive"] }
yellowstone-grpc-client = "*"
yellowstone-grpc-proto = "*"
