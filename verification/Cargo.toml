[package]
name = "jolt"
version = "0.1.0"
edition = "2021"
publish = false

[dependencies]
anyhow = "*"
clap = { version = "*", features = ["derive"] }
hdrhistogram = { version = "*", default-features = false }
humantime = "*"
reqwest = { version = "*", default-features = false }
serde_json = "*"
tokio = { version = "*", features = ["macros", "rt-multi-thread", "time"] }
