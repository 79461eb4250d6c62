[package]
name = "rusiodb"
version = "0.1.0"
edition = "2021"
publish = false

[dependencies]
semver = "1"
serde = { version = "1", features = ["derive"] }
serde_json = "1"
bson = "2"
tokio = { version = "1", features = ["rt", "rt-multi-thread", "macros"] }
rusqlite = { version = "0.32.1", features = ["bundled"] }
postgres = "0.19"
native-tls = "0.2"
postgres-native-tls = "0.5"
reqwest = { version = "0.12", default-features = false, features = ["json", "native-tls"] }
keyring = "3"
dirs = "5"
self-replace = "1"
