[package]
name = "maze_master"
version = "0.1.0"
edition = "2021"
publish = false

[dependencies]
thiserror = "1"
tokio = { version = "1", features = ["io-util", "macros", "net", "rt-multi-thread"] }
