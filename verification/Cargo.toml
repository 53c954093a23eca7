[package]
name = "software_manager"
version = "0.1.0"
edition = "2021"
publish = false

[dependencies]
serde = { version = "=1.0.229", features = ["derive"] }
serde_json = "=1.0.154"
encoding_rs = "=0.8.44"
reqwest = { version = "=0.12.28", default-features = false, features = ["stream"] }
dirs = "=5.0.1"
open = "=5.4.5"
zip = { version = "=2.6.1", default-features = false, features = ["deflate"] }
tokio = { version = "=1.54.1", features = ["fs", "io-util", "rt"] }
futures-util = "=0.3.34"
