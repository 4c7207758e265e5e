[package]
name = "hyprmwh"
version = "0.1.0"
edition = "2021"
publish = false

[dependencies]
serde = { version = "1", features = ["derive"] }
serde_json = "1"
tokio = { version = "1", features = ["rt", "net", "io-util"] }
iced = { version = "0.14", default-features = false, features = ["tokio", "tiny-skia"] }
iced_layershell = { version = "*", default-features = false }
