[package]
name = "adar"
version = "0.1.0"
edition = "2021"
publish = false

[dependencies]
num-traits = "0.2"
proc-macro2 = "1"
quote = "1"
serde = { version = "1", features = ["derive"] }
syn = { version = "2", features = ["full"] }
