[package]
name = "pgoutput_cmdline"
version = "0.1.0"
edition = "2021"
publish = false

[dependencies]
serde = { version = "*", features = ["derive"] }
serde_json = "*"
chrono = { version = "*", default-features = false, features = ["clock"] }
urlencoding = "*"
anyhow = "*"
clap = { version = "*", features = ["derive"] }
tokio = { version = "*", features = ["rt-multi-thread", "macros", "signal", "sync", "io-std", "io-util", "time"] }
async-nats = "*"
async-trait = "*"
reqwest = { version = "*", default-features = false, features = ["json"] }
