[package]
name = "dotcodeschool_cli"
version = "0.1.0"
edition = "2021"
publish = false

[dependencies]
blake2 = "*"
bson = "*"
chrono = "*"
clap = { version = "*", features = ["derive"] }
colored = "*"
hex = "*"
ignore = "*"
indicatif = "*"
reqwest = { version = "*", default-features = false, features = ["blocking", "json"] }
serde = { version = "*", features = ["derive"] }
serde_json = "*"
serde_yaml = "*"
sled = "*"
tungstenite = "*"
