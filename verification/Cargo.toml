[package]
name = "rust_socket"
version = "0.1.0"
edition = "2021"
publish = false

[dependencies]
rand = "=0.10.3"
uuid = { version = "=1.27.0", features = ["v4"] }
tokio = { version = "=1.53.2", features = ["rt-multi-thread", "macros", "process", "io-util", "time", "sync"] }
async-std = "=1.13.2"
actix = "=0.13.5"
actix-web = { version = "=4.15.0", default-features = false, features = ["macros", "ws"] }
actix-web-actors = "=4.3.1"
