[package]
name = "metrics_reporter"
version = "0.1.0"
edition = "2021"
publish = false

[dependencies]
prometheus_reporter = "*"
protobuf = "1"
time = "0.1"
