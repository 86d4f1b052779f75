[package]
name = "github_actions_maintainer"
version = "0.7.0"
edition = "2021"
publish = false

[dependencies]
anyhow = "1"
clap = "4"
regex = "1"
reqwest = { version = "0.12", default-features = false, features = ["blocking", "json", "rustls-tls"] }
semver = "1"
serde = { version = "1", features = ["derive"] }
toml_edit = "*"
urlencoding = "2"
walkdir = "2"
