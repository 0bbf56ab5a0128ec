[package]
name = "apk_downloader"
version = "0.1.0"
edition = "2021"
publish = false

[dependencies]
clap = "*"
futures-util = "*"
gpapi = "*"
reqwest = "*"
serde_json = "*"
thirtyfour = "*"
tokio = { version = "*", features = ["macros", "rt-multi-thread"] }

[dev-dependencies]
regex = "*"
