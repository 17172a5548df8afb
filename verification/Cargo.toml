[package]
name = "yaqlite"
version = "0.1.0"
edition = "2021"
publish = false

[dependencies]
rusqlite = { version = "0.28", features = ["bundled"] }
yaml-rust = "0.4"
clap = { version = "3", features = ["derive"] }
anyhow = "1"
exitcode = "1"
thiserror = "1"
