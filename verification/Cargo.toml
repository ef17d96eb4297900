[package]
name = "matrix_nio"
version = "0.1.0"
edition = "2021"
publish = false

[dependencies]
async-std = "1"
futures = "0.3"
http = "0.2"
js_int = "0.1"
reqwest = { version = "0.10", default-features = false, features = ["rustls-tls"] }
ruma-api = "0.12"
ruma-client-api = "0.5"
ruma-events = "0.15"
ruma-identifiers = "0.14"
url = "2"
