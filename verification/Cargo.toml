[package]
name = "boj_client"
version = "0.1.0"
edition = "2021"
publish = false

[dependencies]
csv = "*"
encoding_rs = "*"
serde_json = "*"
urlencoding = "*"
clap = { version = "*", features = ["derive", "env"] }
flate2 = "*"
reqwest = { version = "*", default-features = false, features = ["blocking"] }
rmcp = "*"
schemars = "*"
serde = { version = "*", features = ["derive"] }
tokio = { version = "*", features = ["full"] }
