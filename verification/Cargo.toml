[package]
name = "linecache"
version = "0.1.0"
edition = "2021"
publish = false

[dependencies]
moka = { version = "*", features = ["sync", "future"] }
once_cell = "*"
rand = "*"
sysinfo = "*"
tokio = { version = "*", features = ["fs", "io-util", "rt", "rt-multi-thread", "macros", "sync"] }
