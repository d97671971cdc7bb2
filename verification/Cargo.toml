[package]
name = "roll"
version = "0.1.0"
edition = "2021"
publish = false

[dependencies]
rand = "0.7"
clap = { version = "3", features = ["cargo"] }

[dev-dependencies]
regex = "1"
