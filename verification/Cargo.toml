[package]
name = "pself"
version = "0.1.0"
edition = "2021"
publish = false

[dependencies]
sha2 = "0.10"
regex = "1"
clap = "4"
notify = "6"
tokio = { version = "1", features = ["macros", "process", "rt-multi-thread", "time"] }
