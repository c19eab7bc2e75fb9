[package]
name = "yanami"
version = "0.1.0"
edition = "2021"
publish = false

[dependencies]
anyhow = "1"
base32 = "*"
chrono = "0.4"
clap = { version = "4", features = ["derive", "env"] }
formatx = "*"
regex = "1"
reqwest = { version = "0.12", default-features = false }
rss = "*"
serde = { version = "1", features = ["derive"] }
serde_bencode = "*"
serde_json = "1"
sha1 = "0.10"
sha2 = "0.10"
tokio = { version = "1", features = ["rt-multi-thread", "macros", "sync", "time"] }
toml = "*"
