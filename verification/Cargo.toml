[package]
name = "resuma_core"
version = "0.1.0"
edition = "2021"
publish = false

[dependencies]
zip = "*"
reqwest = { version = "*", default-features = false, features = ["stream"] }
futures-util = "*"
serde_json = "*"
dirs = "*"
dotenvy = "*"
discord-rich-presence = "*"
