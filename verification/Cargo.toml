[package]
name = "netplay_server"
version = "0.1.0"
edition = "2021"
publish = false

[dependencies]
futures = "0.3"
md5 = "0.7"
parking_lot = "0.10"
tokio = { version = "0.2", features = ["full"] }
