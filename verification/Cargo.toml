[package]
name = "test_server"
version = "0.1.0"
edition = "2021"
publish = false

[dependencies]
actix-http = "3"
actix-rt = "2"
actix-web = { version = "4", default-features = false }
bytes = "1"
crossbeam = "0.8"
crossbeam-channel = "0.5"
futures = "0.3"
http = "0.2"
rand = "0.7"
