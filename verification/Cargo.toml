[package]
name = "launch_core"
version = "0.1.0"
edition = "2021"
publish = false

[dependencies]
md-5 = "*"
uuid = "*"
zip = { version = "*", default-features = false, features = ["deflate"] }
serde = { version = "*", features = ["derive"] }
serde_json = "*"
reqwest = { version = "*", default-features = false, features = ["json"] }
tokio = { version = "*", features = ["rt-multi-thread", "macros", "fs", "sync", "process"] }
futures = "*"
anyhow = "*"
walkdir = "*"
