[package]
name = "libroxo"
version = "0.1.0"
edition = "2021"
publish = false

[dependencies]
anyhow = "1"
blake3 = "1"
clap = { version = "4", features = ["derive"] }
dunce = "1"
fs-err = "2"
reqwest = { version = "0.12", default-features = false, features = ["blocking", "json"] }
roblox_install = "1"
serde = { version = "1", features = ["derive"] }
serde_json = "1"
termcolor = "1"
uuid = { version = "1", features = ["v4", "serde"] }
