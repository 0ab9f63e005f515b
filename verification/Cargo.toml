[package]
name = "fileshare"
version = "0.1.0"
edition = "2021"
publish = false

[dependencies]
hostname = "*"
home = "*"
tokio = { version = "1", default-features = false, features = ["net", "io-util", "fs", "rt", "rt-multi-thread", "macros", "sync"] }
