[package]
name = "conduit_cli"
version = "0.1.0"
edition = "2021"
publish = false

[dependencies]
sha1 = "0.10"
sha2 = "0.10"
regex = "1"
serde = { version = "1", features = ["derive"] }
serde_json = "1"
toml = "0.8"
thiserror = "2"
miette = "7"
tokio = { version = "1", features = ["macros", "rt-multi-thread", "fs", "process", "io-util", "io-std", "sync"] }
reqwest = { version = "0.12", default-features = false, features = ["json"] }
zip = { version = "7", default-features = false, features = ["deflate"] }
walkdir = "2"
dirs = "6"
uuid = { version = "1", features = ["serde"] }
mc-gate = "*"
