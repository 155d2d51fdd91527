[package]
name = "subtr_actor"
version = "0.1.0"
edition = "2021"
publish = false

[dependencies]
boxcars = "*"
ndarray = "*"
serde = { version = "*", features = ["derive"] }
serde_json = "*"
