[package]
name = "sendme"
version = "0.1.0"
edition = "2021"
publish = false

[dependencies]
anyhow = "1"
flume = "0.11"
futures = "0.3"
hex = "0.4"
iroh-bytes = "=0.12.0"
num_cpus = "1"
rand = "0.8"
tokio = { version = "1", features = ["full"] }
tokio-util = { version = "0.7", features = ["rt"] }
walkdir = "2"
