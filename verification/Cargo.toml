[package]
name = "forward_proxy"
version = "0.1.0"
edition = "2021"
publish = false

[dependencies]
sha2 = "0.10"
hyper = { version = "0.14", features = ["full"] }
tokio = { version = "1", features = ["full"] }
clap = { version = "4", features = ["derive"] }
