[package]
name = "fluent-test"
version = "0.1.0"
edition = "2021"
publish = false

[dependencies]
regex = "1"
once_cell = "1"
ctor = "0.2"
tokio = { version = "1", default-features = false, features = ["rt", "time"] }
syn = { version = "2", features = ["full"] }
quote = "1"
proc-macro2 = "1"
