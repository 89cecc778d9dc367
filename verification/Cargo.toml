[package]
name = "cyclingbody"
version = "0.1.0"
edition = "2021"
publish = false

[dependencies]
argh = "0.1"
bytes = "1.9"
futures-core = "0.3"
http-body = "1"
hyper = { version = "1", features = ["http1", "server"] }
hyper-util = { version = "0.1", features = ["tokio"] }
tokio = { version = "1", features = ["macros", "net", "rt-multi-thread", "time"] }
