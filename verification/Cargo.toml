[package]
name = "ktra"
version = "0.1.0"
edition = "2021"
publish = false

[dependencies]
semver = "1"
sha2 = "0.10"
rust-argon2 = "0.8"
rand = "0.8"
serde = { version = "1", features = ["derive"] }
serde_json = "1"
tokio = { version = "1", features = ["macros", "rt-multi-thread", "fs", "io-util", "sync"] }
warp = "0.3"
sled = "0.34"
git2 = "0.13"
clap = "2"
toml = "0.5"
anyhow = "1"
thiserror = "1"
tracing = "0.1"
tracing-subscriber = "0.2"
futures = "0.3"
url = { version = "2", features = ["serde"] }
bytes = "1"
