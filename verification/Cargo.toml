[package]
name = "serde_box"
version = "0.1.0"
edition = "2021"
publish = false

[dependencies]
dashmap = "*"
serde = "1"
erased-serde = "*"
syn = { version = "2", features = ["full"] }
quote = "1"
proc-macro2 = "1"
ctor = "*"

[dev-dependencies]
serde_json = "1"
