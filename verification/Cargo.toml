[package]
name = "asyncband"
version = "0.8.0"
edition = "2021"
publish = false

[dependencies]
async-broadcast = "0.7"
cargo_metadata = "*"
clap = { version = "4", features = ["derive"] }
divan = "0.1"
semver = "1"
serde = { version = "1", features = ["derive"] }
tokio = { version = "1", features = ["rt-multi-thread", "sync", "macros"] }
ureq = { version = "3", features = ["json"] }
which = "*"
