[package]
name = "wei_docker_linux"
version = "0.1.0"
edition = "2021"
publish = false

[dependencies]
percent-encoding = "2"
reqwest = "0.12"
serde_json = "1"
tokio = { version = "1", features = ["rt-multi-thread", "macros", "net", "io-util", "time"] }
wei-log = "*"
