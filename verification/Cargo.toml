[package]
name = "wakeful"
version = "0.1.0"
edition = "2021"
publish = false

[dependencies]
rhai = "1"
ron = "*"
serde = { version = "1", features = ["derive"] }
image = { version = "0.25", default-features = false, features = ["png"] }
