[package]
name = "websocket_transport"
version = "0.1.0"
edition = "2021"
publish = false

[dependencies]
websocket = { version = "*", default-features = false, features = ["async"] }
futures = "0.1"
