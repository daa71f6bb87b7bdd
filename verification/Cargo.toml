[package]
name = "minireq"
version = "0.5.0"
edition = "2021"
publish = false

[dependencies]
embedded-io = "0.6"
heapless = { version = "0.7", features = ["serde"] }
log = "0.4"
minimq = "0.9"
serde = { version = "1", default-features = false, features = ["derive"] }
serde-json-core = "0.5"
smlang = "0.6"
