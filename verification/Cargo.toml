[package]
name = "drives"
version = "0.1.0"
edition = "2021"
publish = false

[dependencies]
gpt = "4"
thiserror = "1"
uuid = "1"
