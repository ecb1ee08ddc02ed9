[package]
name = "rcommit"
version = "0.1.0"
edition = "2021"
publish = false

[dependencies]
clap = "3.2"
clipboard = "0.5"
langchain-rust = "*"
tokio = { version = "1", features = ["macros", "rt-multi-thread"] }
