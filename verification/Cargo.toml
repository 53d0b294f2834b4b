[package]
name = "stellwerksim"
version = "0.1.0"
edition = "2021"
publish = false

[dependencies]
chrono = "0.4"
serde = { version = "1", features = ["derive"] }
serde_with = { version = "3", features = ["chrono_0_4"] }
serde-xml-rs = "0.6"
thiserror = "1"
tokio = { version = "1", features = ["net", "io-util", "sync"] }
xml-rs = "0.8"
