[package]
name = "golink"
version = "0.1.0"
edition = "2021"
publish = false

[dependencies]
itertools = "*"
serde = { version = "1", features = ["derive"] }
thiserror = "1"
tinytemplate = "1"
url = "2"
