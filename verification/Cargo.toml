[package]
name = "cfddns"
version = "0.1.0"
edition = "2021"
publish = false

[dependencies]
anyhow = "1"
clap = { version = "4", features = ["derive"] }
clap-verbosity-flag = "2"
cloudflare = "*"
json = "0.12"
reqwest = "*"
tokio = { version = "1", features = ["macros", "rt-multi-thread"] }
tracing = "0.1"
tracing-log = "0.2"
tracing-subscriber = "0.3"
