[package]
name = "orange_downloader"
version = "0.1.0"
edition = "2021"
publish = false

[dependencies]
url = "*"
sanitize-filename = "*"
uuid = { version = "*", features = ["v4"] }
tokio = { version = "*", features = ["full"] }
reqwest = { version = "*", default-features = false }
sqlx = { version = "*", default-features = false, features = ["runtime-tokio", "sqlite"] }
clap = "*"
anyhow = "*"
async-trait = "*"
futures = "*"
indicatif = "*"
bytes = "*"
thiserror = "*"
async_ftp = "*"
