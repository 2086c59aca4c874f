[package]
name = "kafka_proxy"
version = "0.1.0"
edition = "2021"
publish = false

[dependencies]
lazy_static = "1"
rdkafka = { version = "0.36", default-features = false }
