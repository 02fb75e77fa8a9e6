[package]
name = "greenhouse_core"
version = "0.1.0"
edition = "2021"
publish = false

[dependencies]
rusqlite = { version = "*", features = ["bundled"] }
rustc_apfloat = "*"
tokio = { version = "*", features = ["rt-multi-thread", "macros", "sync", "time"] }
rumqttc = { version = "*", default-features = false }
