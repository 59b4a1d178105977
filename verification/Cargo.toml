[package]
name = "yagde"
version = "0.1.0"
edition = "2021"
publish = false

[dependencies]
anyhow = "1"
clap = { version = "4", features = ["derive"] }
copy_dir = "*"
inquire = "*"
strum = "*"
strum_macros = "*"
thiserror = "1"
