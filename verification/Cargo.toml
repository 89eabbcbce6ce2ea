[package]
name = "hclient-native"
version = "0.1.0"
edition = "2021"
publish = false

[dependencies]
bytes = "1"
futures-io = "0.3"
futures-util = "0.3"
h2 = "0.4"
h3 = "0.0.8"
h3-quinn = "0.0.10"
http = "1"
http-body = "1"
http-body-util = "0.1"
hyper = { version = "1", features = ["client", "http1", "http2"] }
pin-project-lite = "0.2"
quinn = { version = "0.11", default-features = false }
thiserror = "2"
web-time = "1"
