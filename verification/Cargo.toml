[package]
name = "syncd"
version = "0.1.0"
edition = "2021"
publish = false

[dependencies]
anyhow = "*"
argh = "*"
fast_rsync = "*"
hex = "*"
ignore = "*"
memchr = "*"
memmap2 = "*"
notify = "*"
sha2 = "*"
tokio = { version = "*", features = ["full"] }
tracing = "*"
tracing-subscriber = { version = "*", features = ["env-filter"] }
uuid = { version = "*", features = ["v4"] }
