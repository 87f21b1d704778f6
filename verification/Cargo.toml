[package]
name = "stark_core"
version = "0.1.0"
edition = "2021"
publish = false

[dependencies]
winter-utils = "*"

[dev-dependencies]
winter-rand-utils = "*"
num-bigint = "*"
proptest = { version = "*", default-features = false, features = ["std"] }
