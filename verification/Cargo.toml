[package]
name = "tokio_lab"
version = "0.1.0"
edition = "2021"
publish = false

[dependencies]
mini-redis = "0.4"
bytes = "1"
tokio = { version = "1", features = ["full"] }
tracing = "0.1"
tracing-subscriber = "0.3"
serde_json = "1"
clap = "2"
structopt = "0.3"
lazy_static = "1"
