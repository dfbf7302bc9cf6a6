[package]
name = "emporium"
version = "0.1.0"
edition = "2021"
publish = false

[dependencies]
futures = "*"
serde_json = "*"
toml = "*"
sipper = "*"
tokio = { version = "*", features = ["rt"] }
