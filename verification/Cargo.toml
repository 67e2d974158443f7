[package]
name = "code2docx"
version = "0.1.0"
edition = "2021"
publish = false

[dependencies]
docx-rs = "*"
clap = { version = "4", features = ["derive"] }
thiserror = "*"
