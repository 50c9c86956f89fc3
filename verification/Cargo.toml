[package]
name = "tweet_media"
version = "0.1.0"
edition = "2021"
publish = false

[dependencies]
chrono = { version = "0.4", default-features = false, features = ["std"] }
clap = "2"
failure = "0.1"
failure_derive = "0.1"
filetime = "0.2"
glob = "0.3"
reqwest = { version = "0.9", default-features = false }
serde_json = "1"
