[package]
name = "ldp_resource"
version = "0.1.0"
edition = "2021"
publish = false

[dependencies]
hyper = { version = "0.14", default-features = false }
log = "0.4"
tokio = { version = "1", default-features = false, features = ["fs", "io-util"] }
