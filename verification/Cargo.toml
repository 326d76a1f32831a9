[package]
name = "shmtu"
version = "0.1.0"
edition = "2021"
publish = false

[dependencies]
scraper = "*"
regex = "1"
chrono = { version = "0.4", default-features = false, features = ["std"] }
csv = "1"
base64 = "*"
serde = { version = "1", features = ["derive"] }
serde_json = "1"
toml = "*"
sha2 = "*"
anyhow = "1"
reqwest = { version = "*", default-features = false, features = ["json", "cookies", "blocking", "rustls-tls"] }
tokio = { version = "1", features = ["macros", "rt-multi-thread", "time", "fs", "io-util", "net"] }
clap = { version = "4", features = ["derive", "env"] }
