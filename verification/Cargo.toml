[package]
name = "event_aggregator"
version = "0.1.0"
edition = "2021"
publish = false

[dependencies]
select = "*"
chrono = "*"
tokio = { version = "1", features = ["rt-multi-thread", "macros"] }
hyper = { version = "0.14", features = ["full"] }
reqwest = { version = "0.11", default-features = false }
url = "*"
flate2 = "*"
