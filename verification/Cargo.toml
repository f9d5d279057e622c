[package]
name = "event_assembly"
version = "0.1.0"
edition = "2021"
publish = false

[dependencies]
chrono = "0.4"
clap = "2"
failure = "0.1"
glob = "0.3"
itertools = "0.10"
log = "0.4"
sentry = { version = "0.18", default-features = false, features = ["with_client_implementation"] }
serde_json = "1"
username = "0.2"
