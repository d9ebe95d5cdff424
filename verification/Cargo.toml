[package]
name = "clipkit"
version = "0.1.0"
edition = "2021"
publish = false

[dependencies]
serde_json = "*"
rand = "*"
url = "*"
uuid = { version = "*", features = ["v4", "v7"] }
jiff = "*"
clap = { version = "*", features = ["derive"] }
copypasta = "*"
ureq = "*"
