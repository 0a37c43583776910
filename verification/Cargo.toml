[package]
name = "tsa_sim"
version = "0.1.0"
edition = "2021"
publish = false

[dependencies]
rand = "0.8"
threadpool = "1"
tokio = { version = "1", features = ["fs", "io-util", "macros", "rt-multi-thread"] }
