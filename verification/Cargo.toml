[package]
name = "taup"
version = "0.1.1"
edition = "2021"
publish = false

[dependencies]
clap = "2"
rand = "0.8"
rodio = "0.17"
tokio = { version = "1", features = ["macros", "rt-multi-thread"] }
