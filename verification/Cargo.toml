[package]
name = "gifp4"
version = "0.1.0"
edition = "2021"
publish = false

[dependencies]
sled = "0.34"
rand = "0.8"
hyper = { version = "0.14", features = ["full"] }
warp = "0.3"
tokio = { version = "1", features = ["full"] }
http-body = "0.4"
ammonia = "3"

[dev-dependencies]
base64 = "0.13"
