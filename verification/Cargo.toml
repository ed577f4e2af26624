[package]
name = "open_recorder"
version = "0.1.0"
edition = "2021"
publish = false

[dependencies]
serde = { version = "1", features = ["derive"] }
serde_json = "1"
hound = "3.5.1"
rdev = "0.5.3"
display-info = "0.5.10"
core-foundation = "0.10.1"
core-graphics = "0.24.0"
