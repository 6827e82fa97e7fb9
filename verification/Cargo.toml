[package]
name = "converter"
version = "0.1.0"
edition = "2021"
publish = false

[dependencies]
chrono = { version = "0.4", default-features = false, features = ["std"] }
chrono-tz = "*"
clap = { version = "4", features = ["derive"] }
regex = "1"

[dev-dependencies]
binrw = "*"
