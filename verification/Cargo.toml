[package]
name = "drive_syncer"
version = "0.1.0"
edition = "2021"
publish = false

[dependencies]
anyhow = "1"
bimap = "0.6"
fuser = { version = "0.13", default-features = false }
futures = "0.3"
google-drive3 = "5"
hyper = { version = "0.14", features = ["client", "http1", "http2", "stream"] }
ignore = "0.4"
libc = "0.2"
md-5 = "0.10"
mime = "0.3"
tempfile = "3"
tokio = { version = "1", features = ["full"] }
tracing = "0.1"
