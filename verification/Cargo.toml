[package]
name = "taunter"
version = "0.11.2"
edition = "2021"
publish = false

[dependencies]
regex = "1"
rand = "0.8"
serde = { version = "1", features = ["derive"] }
serde_json = "1"
clap = { version = "4", features = ["derive"] }
async-std = { version = "1", features = ["attributes"] }
discord-presence = "1"
rcon = { version = "0.6", features = ["rt-async-std"] }
mlua = { version = "0.9", features = ["lua54", "vendored", "async"] }
