[package]
name = "hyperlocal"
version = "0.9.1"
edition = "2021"
publish = false

[dependencies]
hex = "0.4"
hyper = { version = "1", features = ["client", "http1", "server"] }
hyper-util = { version = "0.1", features = ["client-legacy", "http1", "tokio"] }
tokio = { version = "1", features = ["net", "rt", "io-util"] }
tower-service = "0.3"
pin-project-lite = "0.2"
pin-project = "1"
futures-util = "0.3"

[dev-dependencies]
http-body-util = "0.1"
