[package]
name = "git_changes"
version = "0.1.0"
edition = "2021"
publish = false

[dependencies]
anyhow = "1"
chrono = { version = "0.4", default-features = false, features = ["std"] }
git2 = { version = "*", default-features = false }
markdown-composer = "*"
regex = "1"
semver = "1"
structopt = "0.3"
tracing = "0.1"
tracing-log = "*"
tracing-subscriber = { version = "0.3", features = ["env-filter"] }
