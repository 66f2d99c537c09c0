[package]
name = "inittrack"
version = "0.1.0"
edition = "2021"
publish = false

[dependencies]
csv = "1"
failure = "0.1"
futures = "0.1"
inotify = "0.6"
irc = "0.13"
serde = "1"
serde_derive = "1"
tokio-core = "0.1"
