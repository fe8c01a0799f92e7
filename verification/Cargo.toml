[package]
name = "crabst"
version = "0.1.0"
edition = "2021"
publish = false

[dependencies]
chrono = "*"
comfy-table = "*"
crates_io_api = "*"
futures = "*"
getopts = "*"
indicatif = "*"
rasciigraph = "*"
tokio = { version = "*", features = ["rt-multi-thread", "macros", "sync", "time", "io-std", "io-util"] }
