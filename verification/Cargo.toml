[package]
name = "dwat"
version = "0.1.0"
edition = "2021"
publish = false

[dependencies]
gimli = "=0.28.1"
object = { version = "=0.32.2", features = ["write"] }
memmap2 = "=0.9.12"
anyhow = "=1.0.104"
thiserror = "=1.0.69"
clap = { version = "=4.6.7", features = ["derive"] }
